//! Timeline modifiers: operations that move or remove the objects of whole lanes.

use rand::rngs::StdRng;
use vstd::prelude::*;
use crate::keyspec::KeySpec;
use crate::obj::{Lane, Obj};
use crate::random::draw_between;
use crate::obj::{ObjConvOps, ObjQueryOps, WithObjData};
use crate::timeline::Timeline;

verus! {

/// An object as it is left when only the given lanes are kept: unchanged in one of them,
/// reduced to its effect elsewhere.
pub open spec fn kept(obj: Obj, lanes: Seq<Lane>) -> Obj {
    match obj.data.lane_spec() {
        Some(lane) => if lanes.contains(lane) {
            obj
        } else {
            obj.replaced(obj.data.effect_spec())
        },
        None => obj,
    }
}

/// The objects that are left when only the given lanes are kept, in their order: what an
/// object outside them leaves behind, if anything, stays in its place, and deleted objects go.
pub open spec fn filtered(objs: Seq<Obj>, lanes: Seq<Lane>) -> Seq<Obj>
    decreases objs.len(),
{
    if objs.len() == 0 {
        Seq::empty()
    } else {
        let head = filtered(objs.drop_last(), lanes);
        let obj = kept(objs.last(), lanes);
        if obj.data is Deleted {
            head
        } else {
            head.push(obj)
        }
    }
}

/// Tells whether the lane is among the given lanes.
pub fn contains_lane(lanes: &Vec<Lane>, lane: Lane) -> (r: bool)
    ensures
        r == lanes@.contains(lane),
{
    let n: usize = lanes.len();
    let mut i: usize = 0;
    while i < n
        invariant
            n == lanes@.len(),
            0 <= i <= n,
            forall|j: int| 0 <= j < i ==> lanes@[j] != lane,
        decreases n - i,
    {
        if lanes[i].0 == lane.0 {
            assert(lanes@[i as int] == lane);
            return true;
        }
        i += 1;
    }
    false
}

/// Removes objects not in the specified lanes. The sound of a removed note still plays, in
/// the background.
pub fn filter_lanes(timeline: &mut Timeline, lanes: &Vec<Lane>)
    ensures
        final(timeline).initbpm == old(timeline).initbpm,
        final(timeline).objs@ == filtered(old(timeline).objs@, lanes@),
{
    let n: usize = timeline.objs.len();
    let mut out: Vec<Obj> = Vec::new();
    let mut i: usize = 0;
    assert(timeline.objs@.take(0) =~= Seq::<Obj>::empty());
    while i < n
        invariant
            n == timeline.objs@.len(),
            *timeline == *old(timeline),
            0 <= i <= n,
            out@ == filtered(timeline.objs@.take(i as int), lanes@),
        decreases n - i,
    {
        proof {
            assert(timeline.objs@.take(i + 1).drop_last() =~= timeline.objs@.take(i as int));
            assert(timeline.objs@.take(i + 1).last() == timeline.objs@[i as int]);
        }
        let obj = timeline.objs[i];
        let left = match obj.object_lane() {
            Some(lane) => if contains_lane(lanes, lane) {
                obj
            } else {
                obj.to_effect()
            },
            None => obj,
        };
        if !left.is_deleted() {
            out.push(left);
        }
        i += 1;
    }
    assert(timeline.objs@.take(n as int) =~= timeline.objs@);
    timeline.objs = out;
}


/// The lane that a lane is moved to when each lane of `from` is moved to the lane of `to` at
/// its place, the later places first. A lane that `from` does not name stays.
pub open spec fn remap(from: Seq<Lane>, to: Seq<Lane>, lane: Lane) -> Lane
    decreases from.len(),
{
    if from.len() == 0 || to.len() != from.len() {
        lane
    } else if from.last() == lane {
        to.last()
    } else {
        remap(from.drop_last(), to.drop_last(), lane)
    }
}

/// An object moved to the lane that `remap` gives for its lane.
pub open spec fn moved(obj: Obj, from: Seq<Lane>, to: Seq<Lane>) -> Obj {
    match obj.data.lane_spec() {
        Some(lane) => obj.replaced(obj.data.with_lane_spec(remap(from, to, lane))),
        None => obj,
    }
}

/// The objects with each one moved to the lane that `remap` gives for its lane.
pub open spec fn remapped(objs: Seq<Obj>, from: Seq<Lane>, to: Seq<Lane>) -> Seq<Obj> {
    Seq::new(objs.len(), |i: int| moved(objs[i], from, to))
}

/// Returns the lane that a lane is moved to.
pub fn remap_lane(from: &Vec<Lane>, to: &Vec<Lane>, lane: Lane) -> (r: Lane)
    ensures
        r == remap(from@, to@, lane),
{
    if from.len() != to.len() {
        return lane;
    }
    let mut k: usize = from.len();
    assert(from@.take(k as int) =~= from@);
    assert(to@.take(k as int) =~= to@);
    while k > 0
        invariant
            from@.len() == to@.len(),
            0 <= k <= from@.len(),
            remap(from@.take(k as int), to@.take(k as int), lane) == remap(from@, to@, lane),
        decreases k,
    {
        proof {
            assert(from@.take(k as int).drop_last() =~= from@.take(k - 1));
            assert(to@.take(k as int).drop_last() =~= to@.take(k - 1));
        }
        if from[k - 1].0 == lane.0 {
            return to[k - 1];
        }
        k -= 1;
    }
    lane
}

/// Moves the objects of each lane of `from` to the lane of `to` at its place.
pub fn remap_lanes(timeline: &mut Timeline, from: &Vec<Lane>, to: &Vec<Lane>)
    ensures
        final(timeline).initbpm == old(timeline).initbpm,
        final(timeline).objs@ == remapped(old(timeline).objs@, from@, to@),
{
    let n: usize = timeline.objs.len();
    let mut out: Vec<Obj> = Vec::new();
    let mut i: usize = 0;
    while i < n
        invariant
            n == timeline.objs@.len(),
            *timeline == *old(timeline),
            0 <= i <= n,
            out@ == remapped(timeline.objs@, from@, to@).take(i as int),
        decreases n - i,
    {
        let obj = timeline.objs[i];
        let next = match obj.object_lane() {
            Some(lane) => obj.with_object_lane(remap_lane(from, to, lane)),
            None => obj,
        };
        out.push(next);
        i += 1;
        assert(out@ =~= remapped(timeline.objs@, from@, to@).take(i as int));
    }
    assert(remapped(timeline.objs@, from@, to@).take(n as int) =~= remapped(
        timeline.objs@,
        from@,
        to@,
    ));
    timeline.objs = out;
}

/// Returns the lanes in the reverse order.
pub fn reversed(lanes: &Vec<Lane>) -> (r: Vec<Lane>)
    ensures
        r@ == lanes@.reverse(),
{
    let n: usize = lanes.len();
    let mut r: Vec<Lane> = Vec::new();
    let mut i: usize = 0;
    while i < n
        invariant
            n == lanes@.len(),
            0 <= i <= n,
            r@.len() == i,
            forall|k: int| 0 <= k < i ==> r@[k] == lanes@[n - 1 - k],
        decreases n - i,
    {
        r.push(lanes[n - 1 - i]);
        i += 1;
    }
    assert(r@ =~= lanes@.reverse());
    r
}

/// Swaps given lanes in the reverse order.
pub fn mirror(timeline: &mut Timeline, lanes: &Vec<Lane>)
    ensures
        final(timeline).initbpm == old(timeline).initbpm,
        final(timeline).objs@ == remapped(old(timeline).objs@, lanes@, lanes@.reverse()),
{
    let to = reversed(lanes);
    remap_lanes(timeline, lanes, &to);
}

/// Brings the lanes into a random order: from the last place down to the second, the lane
/// of each place changes places with the lane of a place drawn from the first up to its own.
/// Whatever the numbers drawn, the result is what `shuffle_lanes_with` makes of the lanes with
/// them, and holds the same lanes as often as before.
pub fn shuffle_lanes(r: &mut StdRng, lanes: &mut Vec<Lane>)
    ensures
        final(lanes)@.to_multiset() == old(lanes)@.to_multiset(),
        final(lanes)@.len() == old(lanes)@.len(),
        exists|draws: Seq<usize>|
            draws_in_range(draws, old(lanes)@.len() as int) && final(lanes)@
                == #[trigger] shuffled_from(old(lanes)@, draws, old(lanes)@.len() - 1),
{
    let n: usize = lanes.len();
    let mut draws: Vec<usize> = Vec::new();
    let mut k: usize = 0;
    while k < n
        invariant
            0 <= k <= n,
            draws@.len() == k,
            forall|m: int| 0 <= m < k ==> draws@[m] <= m,
        decreases n - k,
    {
        draws.push(0);
        k += 1;
    }
    let mut i: usize = if n > 0 {
        n - 1
    } else {
        0
    };
    while i > 0
        invariant
            draws@.len() == n,
            0 <= i < n || (i == 0 && n == 0),
            forall|m: int| 0 <= m < n ==> draws@[m] <= m,
        decreases i,
    {
        let j: usize = if (i as u64) <= 0x7fff_ffff_ffff_ffff {
            draw_between(r, 0, i as i64) as usize
        } else {
            i
        };
        draws.set(i, j);
        i -= 1;
    }
    assert(draws_in_range(draws@, n as int));
    shuffle_lanes_with(lanes, &draws);
}

/// True if there are `n` numbers and each is a place from the first up to its own.
pub open spec fn draws_in_range(draws: Seq<usize>, n: int) -> bool {
    draws.len() == n && forall|i: int| 0 <= i < n ==> #[trigger] draws[i] <= i
}

/// The place that the lane of the place `i` changes places with: the number drawn for the
/// place if it is a place from the first up to `i`, and `i` itself if not.
pub open spec fn draw_at(draws: Seq<usize>, i: int) -> int {
    if 0 <= i < draws.len() && draws[i] <= i {
        draws[i] as int
    } else {
        i
    }
}

/// The lanes with those of the places `i` and `j` in each other's place.
pub open spec fn swapped(lanes: Seq<Lane>, i: int, j: int) -> Seq<Lane> {
    lanes.update(i, lanes[j]).update(j, lanes[i])
}

/// The lanes after the lane of each place, from the place `i` down to the second, has changed
/// places with the lane of the place drawn for it.
pub open spec fn shuffled_from(lanes: Seq<Lane>, draws: Seq<usize>, i: int) -> Seq<Lane>
    decreases i,
{
    if i <= 0 || i >= lanes.len() {
        lanes
    } else {
        shuffled_from(swapped(lanes, i, draw_at(draws, i)), draws, i - 1)
    }
}

/// Brings the lanes into the order that the numbers give: from the last place down to the
/// second, the lane of each place changes places with the lane of the place that is drawn
/// for it. A number that is no place from the first up to its own leaves its lane where it
/// is.
pub fn shuffle_lanes_with(lanes: &mut Vec<Lane>, draws: &Vec<usize>)
    ensures
        final(lanes)@ == shuffled_from(old(lanes)@, draws@, old(lanes)@.len() - 1),
        final(lanes)@.to_multiset() == old(lanes)@.to_multiset(),
        final(lanes)@.len() == old(lanes)@.len(),
{
    let n: usize = lanes.len();
    if n < 2 {
        return ;
    }
    let mut i: usize = n - 1;
    while i > 0
        invariant
            n == lanes@.len(),
            n == old(lanes)@.len(),
            0 <= i < n,
            lanes@.to_multiset() == old(lanes)@.to_multiset(),
            shuffled_from(lanes@, draws@, i as int) == shuffled_from(
                old(lanes)@,
                draws@,
                n - 1,
            ),
        decreases i,
    {
        let j: usize = if i < draws.len() && draws[i] <= i {
            draws[i]
        } else {
            i
        };
        let a = lanes[i];
        let b = lanes[j];
        let ghost before = lanes@;
        lanes.set(i, b);
        lanes.set(j, a);
        proof {
            assert(lanes@ =~= swapped(before, i as int, draw_at(draws@, i as int)));
            vstd::seq_lib::to_multiset_update(before, i as int, b);
            vstd::seq_lib::to_multiset_update(before.update(i as int, b), j as int, a);
            let m = before.to_multiset();
            assert(m.count(a) > 0) by {
                vstd::seq_lib::to_multiset_contains(before, a);
                assert(before.contains(a));
            }
            assert(m.count(b) > 0) by {
                vstd::seq_lib::to_multiset_contains(before, b);
                assert(before.contains(b));
            }
            let old_j = before.update(i as int, b)[j as int];
            assert(old_j == b);
            assert(m.insert(b).remove(a).insert(a).remove(b) =~= m);
        }
        i -= 1;
    }
}

/// Swaps given lanes in the random order. Whatever the order drawn, each of the lanes goes
/// to one of the lanes.
pub fn shuffle(timeline: &mut Timeline, r: &mut StdRng, lanes: &Vec<Lane>)
    ensures
        final(timeline).initbpm == old(timeline).initbpm,
        exists|to: Seq<Lane>|
            to.to_multiset() == lanes@.to_multiset() && to.len() == lanes@.len()
                && final(timeline).objs@ == #[trigger] remapped(old(timeline).objs@, lanes@, to),
{
    let mut to = copy_lanes(lanes);
    shuffle_lanes(r, &mut to);
    remap_lanes(timeline, lanes, &to);
}

/// Returns a copy of the lanes.
pub fn copy_lanes(lanes: &Vec<Lane>) -> (r: Vec<Lane>)
    ensures
        r@ == lanes@,
{
    let n: usize = lanes.len();
    let mut r: Vec<Lane> = Vec::new();
    let mut i: usize = 0;
    while i < n
        invariant
            n == lanes@.len(),
            0 <= i <= n,
            r@ == lanes@.take(i as int),
        decreases n - i,
    {
        r.push(lanes[i]);
        i += 1;
        assert(r@ =~= lanes@.take(i as int));
    }
    assert(lanes@.take(n as int) =~= lanes@);
    r
}

/// A modifier that affects the game data.
#[derive(Clone, Copy, Debug, PartialEq, Eq, Structural)]
pub enum Modf {
    /// Swaps all "key" (i.e. `KeyKind::counts_as_key` returns true) lanes in the reverse
    /// order.
    Mirror,
    /// Swaps all "key" lanes in the random order.
    Shuffle,
    /// Swaps all lanes in the random order.
    ShuffleEx,
    /// Swaps all "key" lanes in the random order, where the order is determined per object.
    Random,
    /// Swaps all lanes in the random order, where the order is determined per object.
    RandomEx,
}

/// True if the modifier applies to the lane of a kind, or of none: the two that spare no
/// lane apply to every lane, the others to the lanes that count as keys.
pub open spec fn applies_to(modf: Modf, kind: Option<crate::keyspec::KeyKind>) -> bool {
    modf is ShuffleEx || modf is RandomEx || match kind {
        Some(k) => k.counts_as_key_spec(),
        None => false,
    }
}

/// The lanes among the places `begin` to `end - 1` of the order that the modifier applies
/// to, in order.
pub open spec fn chosen_lanes(keyspec: &KeySpec, modf: Modf, begin: int, end: int) -> Seq<Lane>
    decreases end - begin,
{
    if end <= begin {
        Seq::empty()
    } else {
        let head = chosen_lanes(keyspec, modf, begin, end - 1);
        let lane = keyspec.order@[end - 1];
        if applies_to(modf, keyspec.kinds@[lane.0 as int]) {
            head.push(lane)
        } else {
            head
        }
    }
}

/// Returns the lanes among the places `begin` to `end - 1` of the order that the modifier
/// applies to.
pub fn choose_lanes(keyspec: &KeySpec, modf: Modf, begin: usize, end: usize) -> (lanes: Vec<Lane>)
    requires
        keyspec.wf(),
        begin <= end <= keyspec.order@.len(),
    ensures
        lanes@ == chosen_lanes(keyspec, modf, begin as int, end as int),
{
    let mut lanes: Vec<Lane> = Vec::new();
    let mut i: usize = begin;
    while i < end
        invariant
            keyspec.wf(),
            begin <= i <= end <= keyspec.order@.len(),
            lanes@ == chosen_lanes(keyspec, modf, begin as int, i as int),
        decreases end - i,
    {
        let lane = keyspec.order[i];
        let kind = keyspec.kinds[lane.0];
        let every = match modf {
            Modf::ShuffleEx | Modf::RandomEx => true,
            _ => false,
        };
        let counts = match kind {
            Some(k) => k.counts_as_key(),
            None => false,
        };
        if every || counts {
            lanes.push(lane);
        }
        i += 1;
    }
    lanes
}

/// True if the objects are those of `before` with some of them moved within the given
/// lanes: each object keeps its place, its location and all of its data but the lane, an
/// object outside the lanes keeps its lane too, and an object in one of the lanes is in one
/// of them afterwards.
pub open spec fn moved_within(before: Seq<Obj>, after: Seq<Obj>, lanes: Seq<Lane>) -> bool {
    &&& after.len() == before.len()
    &&& forall|i: int|
        0 <= i < before.len() ==> match (#[trigger] before[i]).data.lane_spec() {
            Some(lane) => if lanes.contains(lane) {
                exists|to: Lane|
                    lanes.contains(to) && after[i] == before[i].replaced(
                        #[trigger] before[i].data.with_lane_spec(to),
                    )
            } else {
                after[i] == before[i]
            },
            None => after[i] == before[i],
        }
}

/// Returns the index of a lane among the lanes, if it is among them.
pub fn position_of(lanes: &Vec<Lane>, lane: Lane) -> (r: Option<usize>)
    ensures
        match r {
            Some(k) => k < lanes@.len() && lanes@[k as int] == lane,
            None => !lanes@.contains(lane),
        },
{
    let n: usize = lanes.len();
    let mut i: usize = 0;
    while i < n
        invariant
            n == lanes@.len(),
            0 <= i <= n,
            forall|j: int| 0 <= j < i ==> lanes@[j] != lane,
        decreases n - i,
    {
        if lanes[i].0 == lane.0 {
            assert(lanes@[i as int] == lane);
            return Some(i);
        }
        i += 1;
    }
    None
}

/// Swaps given lanes in the random order, where the order is determined per object. The
/// lanes are brought into a new order whenever the time moves on, but for the lanes of the
/// long notes in progress, which stay where they are until their long note is over.
/// Whatever the orders drawn, each object of the lanes stays within them.
pub fn randomize(timeline: &mut Timeline, r: &mut StdRng, lanes: &Vec<Lane>)
    ensures
        final(timeline).initbpm == old(timeline).initbpm,
        moved_within(old(timeline).objs@, final(timeline).objs@, lanes@),
{
    let n: usize = timeline.objs.len();
    let mut movable: Vec<Lane> = copy_lanes(lanes);
    let mut targets: Vec<Lane> = copy_lanes(lanes);
    let mut held_from: Vec<Lane> = Vec::new();
    let mut held_to: Vec<Lane> = Vec::new();
    let mut out: Vec<Obj> = Vec::new();
    let mut lasttime: Option<i64> = None;
    let mut i: usize = 0;
    while i < n
        invariant
            n == timeline.objs@.len(),
            *timeline == *old(timeline),
            0 <= i <= n,
            out@.len() == i,
            movable@.len() == targets@.len(),
            held_from@.len() == held_to@.len(),
            forall|k: int| 0 <= k < movable@.len() ==> lanes@.contains(#[trigger] movable@[k]),
            forall|k: int| 0 <= k < targets@.len() ==> lanes@.contains(#[trigger] targets@[k]),
            forall|k: int| 0 <= k < held_from@.len() ==> lanes@.contains(#[trigger] held_from@[k]),
            forall|k: int| 0 <= k < held_to@.len() ==> lanes@.contains(#[trigger] held_to@[k]),
            moved_within(timeline.objs@.take(i as int), out@, lanes@),
        decreases n - i,
    {
        let obj = timeline.objs[i];
        let ghost sofar = timeline.objs@.take(i as int);
        let ghost done = out@;
        let fresh = match lasttime {
            Some(t) => t < obj.loc.time,
            None => true,
        };
        if fresh {
            // the time has moved on: the lanes that are free change places
            lasttime = Some(obj.loc.time);
            let ghost before = targets@;
            shuffle_lanes(r, &mut targets);
            proof {
                assert forall|k: int| 0 <= k < targets@.len() implies lanes@.contains(
                    #[trigger] targets@[k],
                ) by {
                    vstd::seq_lib::to_multiset_contains(targets@, targets@[k]);
                    vstd::seq_lib::to_multiset_contains(before, targets@[k]);
                    assert(targets@.contains(targets@[k]));
                    assert(before.contains(targets@[k]));
                    let w = choose|w: int| 0 <= w < before.len() && before[w] == targets@[k];
                    assert(lanes@.contains(before[w]));
                }
            }
        }
        let next = match obj.object_lane() {
            Some(lane) => match position_of(&movable, lane) {
                Some(k) => {
                    let to = targets[k];
                    if obj.is_lnstart() {
                        // the lane is taken until the long note is over
                        movable.swap_remove(k);
                        targets.swap_remove(k);
                        held_from.push(lane);
                        held_to.push(to);
                    }
                    obj.with_object_lane(to)
                },
                None => match position_of(&held_from, lane) {
                    Some(k) => {
                        let to = held_to[k];
                        if obj.is_lndone() {
                            // the long note is over: the lane is free again
                            held_from.swap_remove(k);
                            held_to.swap_remove(k);
                            movable.push(lane);
                            targets.push(to);
                        }
                        obj.with_object_lane(to)
                    },
                    None => obj,
                },
            },
            None => obj,
        };
        out.push(next);
        i += 1;
        proof {
            let now = timeline.objs@.take(i as int);
            assert forall|j: int| 0 <= j < now.len() implies match (#[trigger] now[j]).data.lane_spec() {
                Some(lane) => if lanes@.contains(lane) {
                    exists|to: Lane|
                        lanes@.contains(to) && out@[j] == now[j].replaced(
                            #[trigger] now[j].data.with_lane_spec(to),
                        )
                } else {
                    out@[j] == now[j]
                },
                None => out@[j] == now[j],
            } by {
                if j < i - 1 {
                    assert(now[j] == sofar[j]);
                    assert(out@[j] == done[j]);
                } else {
                    assert(now[j] == obj);
                    assert(out@[j] == next);
                    match obj.data.lane_spec() {
                        Some(lane) => {
                            if lanes@.contains(lane) {
                                if next == obj {
                                    assert(obj.data.with_lane_spec(lane) == obj.data);
                                    assert(next == obj.replaced(obj.data.with_lane_spec(lane)));
                                }
                            }
                        },
                        None => {},
                    }
                }
            }
        }
    }
    assert(timeline.objs@.take(n as int) =~= timeline.objs@);
    timeline.objs = out;
}

/// True if `after` is what the modifier may make of `before` on the given lanes: for
/// `Mirror`, the lanes in the reverse order; for the two shuffles, the lanes in some order;
/// for the two random modifiers, each object of the lanes moved within them.
pub open spec fn modified(before: Seq<Obj>, after: Seq<Obj>, modf: Modf, lanes: Seq<Lane>) -> bool {
    match modf {
        Modf::Mirror => after == remapped(before, lanes, lanes.reverse()),
        Modf::Shuffle | Modf::ShuffleEx => exists|to: Seq<Lane>|
            to.to_multiset() == lanes.to_multiset() && to.len() == lanes.len() && after
                == #[trigger] remapped(before, lanes, to),
        Modf::Random | Modf::RandomEx => moved_within(before, after, lanes),
    }
}

/// Applies given modifier to given group of lanes in the game data. `begin` and `end` should
/// be a valid range from 0 to the length of the order, where `end` is exclusive.
pub fn apply_modf_to_lanes(
    timeline: &mut Timeline,
    modf: Modf,
    r: &mut StdRng,
    keyspec: &KeySpec,
    begin: usize,
    end: usize,
)
    requires
        keyspec.wf(),
        begin <= end <= keyspec.order@.len(),
    ensures
        final(timeline).initbpm == old(timeline).initbpm,
        modified(
            old(timeline).objs@,
            final(timeline).objs@,
            modf,
            chosen_lanes(keyspec, modf, begin as int, end as int),
        ),
{
    let lanes = choose_lanes(keyspec, modf, begin, end);
    match modf {
        Modf::Mirror => mirror(timeline, &lanes),
        Modf::Shuffle | Modf::ShuffleEx => shuffle(timeline, r, &lanes),
        Modf::Random | Modf::RandomEx => randomize(timeline, r, &lanes),
    }
}

} // verus!
