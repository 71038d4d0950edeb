//! Pointer: a cursor into a timeline that can seek along any of the four axes.
//!
//! A pointer lies between two consecutive objects: every object before `index` lies behind
//! it and the object at `index`, if any, lies ahead. Its location is interpolated linearly
//! between the two. Before the first object the chart runs at its initial BPM; past the last
//! object the location stays at that of the last object.
//!
//! The distance of an interpolated coordinate from that of the object behind the pointer is
//! rounded toward zero to six decimal places (`lerp`), as is the distance from the first
//! object of a pointer before it (`before_first`). Between two objects the coordinate on the
//! axis of the seek is exact; the three others are rounded.

use vstd::prelude::*;
use crate::obj::{Obj, ObjData, ObjLoc, ObjAxis, BPM, Lane, INFINITY, MAX_COORD};
use crate::obj::{ObjQueryOps, clamp_i64, div_trunc, mul_div, coord_ok};
use crate::timeline::Timeline;

verus! {

/// A pointer to the object. A pointer is used to implement common operations, e.g. iterating
/// until given position, or finding the closest object with given condition. It does not hold
/// the timeline: every operation takes the timeline that the pointer was made for.
#[derive(Clone, Copy, Debug, PartialEq, Eq)]
pub struct Pointer {
    /// The current index into objects. Can be the past-the-end value.
    pub index: usize,
    /// The current location per axis.
    pub loc: ObjLoc,
}

/// A class of objects to look for.
#[derive(Clone, Copy, Debug, PartialEq, Eq)]
pub enum ObjClass {
    /// Any object that occupies a lane.
    Object,
    /// Objects that may sound when the key goes down.
    Soundable,
    /// Objects that are graded.
    Gradable,
    /// Ends of long notes.
    LNDone,
    /// Bombs.
    Bomb,
}

/// A condition on objects: a class and, optionally, the lane that the object has to lie in.
#[derive(Clone, Copy, Debug, PartialEq, Eq)]
pub struct ObjFilter {
    pub class: ObjClass,
    pub lane: Option<Lane>,
}

impl ObjFilter {
    /// True if the data is of the class and in the lane asked for.
    pub open spec fn matches_spec(self, data: ObjData) -> bool {
        &&& match self.class {
            ObjClass::Object => data.is_object_spec(),
            ObjClass::Soundable => data.is_soundable_spec(),
            ObjClass::Gradable => data.is_gradable_spec(),
            ObjClass::LNDone => data is LNDone,
            ObjClass::Bomb => data is Bomb,
        }
        &&& match self.lane {
            Some(lane) => data.lane_spec() == Some(lane),
            None => true,
        }
    }

    /// Tells whether the object meets the condition.
    pub fn matches(&self, obj: &Obj) -> (r: bool)
        ensures
            r == self.matches_spec(obj.data),
    {
        let class_ok = match self.class {
            ObjClass::Object => obj.is_object(),
            ObjClass::Soundable => obj.is_soundable(),
            ObjClass::Gradable => obj.is_gradable(),
            ObjClass::LNDone => obj.is_lndone(),
            ObjClass::Bomb => obj.is_bomb(),
        };
        let lane_ok = match self.lane {
            Some(lane) => match obj.object_lane() {
                Some(l) => l.0 == lane.0,
                None => false,
            },
            None => true,
        };
        class_ok && lane_ok
    }
}

/// Limits a value to the finite coordinates.
pub open spec fn clamp_coord(v: int) -> i64 {
    if v < -MAX_COORD {
        (-MAX_COORD) as i64
    } else if v > MAX_COORD {
        MAX_COORD
    } else {
        v as i64
    }
}

/// A coordinate moved by an amount; `INFINITY` stays where it is.
pub open spec fn shift(c: i64, by: int) -> i64 {
    if c == INFINITY {
        INFINITY
    } else {
        clamp_coord(c + by)
    }
}

/// The coordinate at the fraction `num / den` of the way from `x` to `y`. Between a finite
/// and an unreachable coordinate every point but the first is unreachable.
pub open spec fn lerp(x: i64, y: i64, num: int, den: int) -> i64 {
    if x == INFINITY || y == INFINITY {
        INFINITY
    } else {
        clamp_coord(x + div_trunc((y - x) * num, den))
    }
}

/// The location at coordinate `t` of `axis` between two consecutive objects at `a` and `b`.
/// It is that of the first object unless `t` lies strictly between the two on that axis.
pub open spec fn between(a: ObjLoc, b: ObjLoc, axis: ObjAxis, t: i64) -> ObjLoc {
    let lo = a.at(axis);
    let hi = b.at(axis);
    if lo < t && t < hi && hi != INFINITY {
        ObjLoc {
            vpos: lerp(a.vpos, b.vpos, t - lo, hi - lo),
            pos: lerp(a.pos, b.pos, t - lo, hi - lo),
            vtime: lerp(a.vtime, b.vtime, t - lo, hi - lo),
            time: lerp(a.time, b.time, t - lo, hi - lo),
        }
    } else {
        a
    }
}

/// The location at coordinate `t` of `axis` before the first object, which lies at `o`:
/// positions and times run back from `o` at the initial BPM, with no scaling and no stop.
/// Without a positive BPM, or with `t` not before `o`, it is `o` itself.
pub open spec fn before_first(bpm: BPM, o: ObjLoc, axis: ObjAxis, t: i64) -> ObjLoc {
    let base = o.at(axis);
    if base == INFINITY || t >= base || bpm.0 <= 0 {
        o
    } else {
        let m = base - t;
        let dpos = match axis {
            ObjAxis::VirtualPos => m,
            ObjAxis::ActualPos => m,
            _ => bpm.sec_to_measure_spec(m),
        };
        let dtime = match axis {
            ObjAxis::VirtualTime => m,
            ObjAxis::ActualTime => m,
            _ => bpm.measure_to_sec_spec(m),
        };
        ObjLoc {
            vpos: shift(o.vpos, -dpos),
            pos: shift(o.pos, -dpos),
            vtime: shift(o.vtime, -dtime),
            time: shift(o.time, -dtime),
        }
    }
}

/// The location of a pointer with `i` objects behind it, at coordinate `t` of `axis`.
pub open spec fn locate(objs: Seq<Obj>, bpm: BPM, i: int, axis: ObjAxis, t: i64) -> ObjLoc
    recommends
        objs.len() > 0,
{
    if i <= 0 {
        before_first(bpm, objs[0].loc, axis, t)
    } else if i >= objs.len() {
        objs.last().loc
    } else {
        between(objs[i - 1].loc, objs[i].loc, axis, t)
    }
}

/// True if a pointer at coordinate `t` has an object at coordinate `c` behind it. An object
/// that is never reached is never behind.
pub open spec fn passed(c: i64, t: i64) -> bool {
    c <= t && c != INFINITY
}

/// The first index from `i` on whose object the pointer at `t` has not passed on `axis`, or
/// the number of objects if there is none.
pub open spec fn scan_forward(objs: Seq<Obj>, i: int, axis: ObjAxis, t: i64) -> int
    decreases objs.len() - i,
{
    if 0 <= i < objs.len() && passed(objs[i].loc.at(axis), t) {
        scan_forward(objs, i + 1, axis, t)
    } else {
        i
    }
}

/// The last index up to `i` whose preceding object the pointer at `t` has passed on `axis`,
/// or 0 if there is none.
pub open spec fn scan_backward(objs: Seq<Obj>, i: int, axis: ObjAxis, t: i64) -> int
    decreases i,
{
    if 0 < i <= objs.len() && !passed(objs[i - 1].loc.at(axis), t) {
        scan_backward(objs, i - 1, axis, t)
    } else {
        i
    }
}

/// The coordinate to seek to: `delta` away from `cur`, limited to the finite coordinates.
pub open spec fn target(cur: i64, delta: i64) -> i64 {
    shift(cur, delta as int)
}

/// The index of the first object from `i` on that meets the condition, or the number of
/// objects if there is none.
pub open spec fn next_of(objs: Seq<Obj>, filter: ObjFilter, i: int) -> int
    decreases objs.len() - i,
{
    if i < 0 || i >= objs.len() {
        objs.len() as int
    } else if filter.matches_spec(objs[i].data) {
        i
    } else {
        next_of(objs, filter, i + 1)
    }
}

/// The index of the last object before `i` that meets the condition, or -1 if there is none.
pub open spec fn prev_of(objs: Seq<Obj>, filter: ObjFilter, i: int) -> int
    decreases i,
{
    if i <= 0 || i > objs.len() {
        -1
    } else if filter.matches_spec(objs[i - 1].data) {
        i - 1
    } else {
        prev_of(objs, filter, i - 1)
    }
}

/// The pointer at the object of index `j`, if there is such an object.
pub open spec fn object_at(objs: Seq<Obj>, j: int) -> Option<Pointer> {
    if 0 <= j < objs.len() {
        Some(Pointer { index: j as usize, loc: objs[j].loc })
    } else {
        None
    }
}

/// The pointers at the objects of the indices `from` to `to - 1`.
pub open spec fn objects_between(objs: Seq<Obj>, from: int, to: int) -> Seq<Pointer> {
    Seq::new(
        if to > from {
            (to - from) as nat
        } else {
            0nat
        },
        |k: int| Pointer { index: (from + k) as usize, loc: objs[from + k].loc },
    )
}

/// The distance between two coordinates.
pub open spec fn distance(a: i64, b: i64) -> int {
    if a >= b {
        a - b
    } else {
        b - a
    }
}

/// `scan_forward` gives the least index from `i` on that is the number of objects or whose
/// object lies beyond `t`.
pub proof fn lemma_scan_forward(objs: Seq<Obj>, i: int, axis: ObjAxis, t: i64)
    requires
        0 <= i <= objs.len(),
    ensures
        i <= scan_forward(objs, i, axis, t) <= objs.len(),
        forall|j: int|
            i <= j < scan_forward(objs, i, axis, t) ==> passed((#[trigger] objs[j]).loc.at(axis), t),
        scan_forward(objs, i, axis, t) < objs.len() ==> !passed(objs[scan_forward(objs, i, axis, t)].loc.at(axis), t),
    decreases objs.len() - i,
{
    if i < objs.len() && passed(objs[i].loc.at(axis), t) {
        lemma_scan_forward(objs, i + 1, axis, t);
    }
}

/// `scan_backward` gives the greatest index up to `i` that is 0 or whose preceding object
/// does not lie beyond `t`.
pub proof fn lemma_scan_backward(objs: Seq<Obj>, i: int, axis: ObjAxis, t: i64)
    requires
        0 <= i <= objs.len(),
    ensures
        0 <= scan_backward(objs, i, axis, t) <= i,
        forall|j: int|
            scan_backward(objs, i, axis, t) <= j < i ==> !passed((#[trigger] objs[j]).loc.at(axis), t),
        scan_backward(objs, i, axis, t) > 0 ==> passed(objs[scan_backward(objs, i, axis, t) - 1].loc.at(axis), t),
    decreases i,
{
    if 0 < i && !passed(objs[i - 1].loc.at(axis), t) {
        lemma_scan_backward(objs, i - 1, axis, t);
    }
}

/// `next_of` gives the first index from `i` on whose object meets the condition.
pub proof fn lemma_next_of(objs: Seq<Obj>, filter: ObjFilter, i: int)
    requires
        0 <= i <= objs.len(),
    ensures
        i <= next_of(objs, filter, i) <= objs.len(),
        forall|j: int|
            i <= j < next_of(objs, filter, i) ==> !filter.matches_spec((#[trigger] objs[j]).data),
        next_of(objs, filter, i) < objs.len() ==> filter.matches_spec(
            objs[next_of(objs, filter, i)].data,
        ),
    decreases objs.len() - i,
{
    if i < objs.len() && !filter.matches_spec(objs[i].data) {
        lemma_next_of(objs, filter, i + 1);
    }
}

/// `prev_of` gives the last index before `i` whose object meets the condition.
pub proof fn lemma_prev_of(objs: Seq<Obj>, filter: ObjFilter, i: int)
    requires
        0 <= i <= objs.len(),
    ensures
        -1 <= prev_of(objs, filter, i) < i,
        forall|j: int|
            prev_of(objs, filter, i) < j < i ==> !filter.matches_spec((#[trigger] objs[j]).data),
        prev_of(objs, filter, i) >= 0 ==> filter.matches_spec(
            objs[prev_of(objs, filter, i)].data,
        ),
    decreases i,
{
    if i > 0 && !filter.matches_spec(objs[i - 1].data) {
        lemma_prev_of(objs, filter, i - 1);
    }
}

/// Tells whether a pointer at coordinate `t` has an object at coordinate `c` behind it.
pub fn has_passed(c: i64, t: i64) -> (r: bool)
    ensures
        r == passed(c, t),
{
    c <= t && c != INFINITY
}

/// A pointer is settled on an axis if it lies where a seek along that axis would have put
/// it: the object at its index, if any, is not behind it, and its location is the one between
/// its neighbours at its own coordinate.
pub open spec fn settled(objs: Seq<Obj>, bpm: BPM, p: Pointer, axis: ObjAxis) -> bool {
    &&& p.index <= objs.len()
    &&& coord_ok(p.loc.at(axis))
    &&& p.index < objs.len() ==> !passed(objs[p.index as int].loc.at(axis), p.loc.at(axis))
    &&& p.loc == locate(objs, bpm, p.index as int, axis, p.loc.at(axis))
}

/// A seek by zero is idempotent: a settled pointer stays where it is, index and location,
/// however often it is sought by zero along its axis.
pub proof fn lemma_seek_zero_idempotent(objs: Seq<Obj>, bpm: BPM, p: Pointer, axis: ObjAxis)
    requires
        settled(objs, bpm, p, axis),
    ensures
        p.seek_spec(objs, bpm, axis, 0) == p,
        p.seek_spec(objs, bpm, axis, 0).seek_spec(objs, bpm, axis, 0) == p.seek_spec(
            objs,
            bpm,
            axis,
            0,
        ),
{
}

/// Halfway between two objects the coordinate sought is the coordinate found.
proof fn lemma_lerp_on_axis(lo: i64, hi: i64, t: i64)
    requires
        coord_ok(lo),
        coord_ok(hi),
        hi != INFINITY,
        lo < t < hi,
    ensures
        lerp(lo, hi, t - lo, hi - lo) == t,
{
    let d = hi - lo;
    let m = t - lo;
    assert(d * m / d == m) by (nonlinear_arith)
        requires
            d > 0,
            m >= 0,
    ;
    assert(d * m >= 0) by (nonlinear_arith)
        requires
            d > 0,
            m >= 0,
    ;
}

/// The object before a settled pointer does not lie beyond it.
proof fn lemma_settled_after(timeline: &Timeline, p: Pointer, axis: ObjAxis)
    requires
        timeline.wf(),
        timeline.initbpm.0 > 0,
        settled(timeline.objs@, timeline.initbpm, p, axis),
        0 < p.index,
    ensures
        timeline.objs@[p.index - 1].loc.at(axis) <= p.loc.at(axis),
{
    let objs = timeline.objs@;
    let a = objs[p.index - 1].loc;
    assert(a.wf());
    if p.index < objs.len() {
        let b = objs[p.index as int].loc;
        assert(b.wf());
        let t = p.loc.at(axis);
        if a.at(axis) < t && t < b.at(axis) && b.at(axis) != INFINITY {
        } else {
            assert(p.loc == a);
        }
    }
}

/// The location that a seek settles at, given that the object before the index, if any,
/// does not lie beyond the coordinate sought and the object at the index, if any, is not
/// behind it.
proof fn lemma_locate_settles(timeline: &Timeline, index: usize, axis: ObjAxis, t: i64)
    requires
        timeline.wf(),
        timeline.initbpm.0 > 0,
        index <= timeline.objs@.len(),
        coord_ok(t),
        index > 0 ==> timeline.objs@[index - 1].loc.at(axis) <= t,
        index < timeline.objs@.len() ==> !passed(timeline.objs@[index as int].loc.at(axis), t),
    ensures
        settled(
            timeline.objs@,
            timeline.initbpm,
            Pointer {
                index: index,
                loc: locate(timeline.objs@, timeline.initbpm, index as int, axis, t),
            },
            axis,
        ),
{
    let i = index as int;
    let objs = timeline.objs@;
    let bpm = timeline.initbpm;
    let loc = locate(objs, bpm, i, axis, t);
    if i == 0 {
        let o = objs[0].loc;
        assert(o.wf());
        let base = o.at(axis);
        if base == INFINITY || t >= base {
            assert(loc == o);
        } else {
            assert(loc.at(axis) == t);
        }
    } else if i >= objs.len() {
        assert(objs.last().loc.wf());
    } else {
        let a = objs[i - 1].loc;
        let b = objs[i].loc;
        assert(a.wf());
        assert(b.wf());
        let lo = a.at(axis);
        let hi = b.at(axis);
        if lo < t && t < hi && hi != INFINITY {
            lemma_lerp_on_axis(lo, hi, t);
            match axis {
                ObjAxis::VirtualPos => {
                    assert(loc.vpos == t);
                },
                ObjAxis::ActualPos => {
                    assert(loc.pos == t);
                },
                ObjAxis::VirtualTime => {
                    assert(loc.vtime == t);
                },
                ObjAxis::ActualTime => {
                    assert(loc.time == t);
                },
            }
        } else {
            assert(loc == a);
        }
    }
}

/// In a chart with a positive initial BPM, the pointer at an absolute coordinate is settled
/// on its axis.
pub proof fn lemma_at_is_settled(timeline: &Timeline, axis: ObjAxis, pos: i64)
    requires
        timeline.wf(),
        timeline.initbpm.0 > 0,
    ensures
        settled(
            timeline.objs@,
            timeline.initbpm,
            Pointer::at_spec(timeline.objs@, timeline.initbpm, axis, pos),
            axis,
        ),
{
    let t = clamp_coord(pos as int);
    assert(timeline.objs@.len() == timeline.objs.len());
    lemma_scan_forward(timeline.objs@, 0, axis, t);
    let i = scan_forward(timeline.objs@, 0, axis, t);
    if i > 0 {
        assert(passed(timeline.objs@[i - 1].loc.at(axis), t));
    }
    lemma_locate_settles(
        timeline,
        Pointer::at_spec(timeline.objs@, timeline.initbpm, axis, pos).index,
        axis,
        t,
    );
}

/// In a chart with a positive initial BPM, a pointer that is settled on an axis is settled
/// on it again after any seek forwards along it. With `lemma_seek_zero_idempotent`, a seek by
/// zero then leaves the pointer where the first seek has put it.
pub proof fn lemma_forward_seek_settles(timeline: &Timeline, p: Pointer, axis: ObjAxis, delta: i64)
    requires
        timeline.wf(),
        timeline.initbpm.0 > 0,
        settled(timeline.objs@, timeline.initbpm, p, axis),
        delta >= 0,
    ensures
        settled(
            timeline.objs@,
            timeline.initbpm,
            p.seek_spec(timeline.objs@, timeline.initbpm, axis, delta),
            axis,
        ),
{
    let objs = timeline.objs@;
    let t = target(p.loc.at(axis), delta);
    let start = p.index as int;
    assert(timeline.objs@.len() == timeline.objs.len());
    lemma_scan_forward(objs, start, axis, t);
    let i = scan_forward(objs, start, axis, t);
    if i > 0 {
        if i > start {
            assert(passed(objs[i - 1].loc.at(axis), t));
        } else {
            lemma_settled_after(timeline, p, axis);
        }
    }
    lemma_locate_settles(
        timeline,
        p.seek_spec(timeline.objs@, timeline.initbpm, axis, delta).index,
        axis,
        t,
    );
}

/// The end of a chart is reached. Where the last object lies at a finite coordinate of an
/// axis and no object lies beyond it, the pointer at that coordinate has every object behind
/// it and rests at the last object, and so does any pointer once it has sought there from a
/// coordinate at or before it: one seek, however many objects lie between.
pub proof fn lemma_end_is_reached(timeline: &Timeline, axis: ObjAxis, p: Pointer)
    requires
        timeline.wf(),
        timeline.objs@.last().loc.at(axis) != INFINITY,
        forall|j: int|
            0 <= j < timeline.objs@.len() ==> (#[trigger] timeline.objs@[j]).loc.at(axis)
                <= timeline.objs@.last().loc.at(axis),
        p.index <= timeline.objs@.len(),
        coord_ok(p.loc.at(axis)),
        p.loc.at(axis) <= timeline.objs@.last().loc.at(axis),
    ensures
        Pointer::at_spec(
            timeline.objs@,
            timeline.initbpm,
            axis,
            timeline.objs@.last().loc.at(axis),
        ) == Pointer::end_spec(timeline.objs@),
        p.seek_spec(
            timeline.objs@,
            timeline.initbpm,
            axis,
            (timeline.objs@.last().loc.at(axis) - p.loc.at(axis)) as i64,
        ) == Pointer::end_spec(timeline.objs@),
{
    let objs = timeline.objs@;
    let t = objs.last().loc.at(axis);
    assert(objs.len() == timeline.objs.len());
    assert(objs.last().loc.wf());
    assert(coord_ok(t));
    assert(clamp_coord(t as int) == t);
    assert(target(p.loc.at(axis), (t - p.loc.at(axis)) as i64) == t);
    lemma_scan_forward(objs, 0, axis, t);
    lemma_scan_forward(objs, p.index as int, axis, t);
}

/// Limits a value to the finite coordinates.
pub fn clamp_to_coord(v: i128) -> (c: i64)
    ensures
        c == clamp_coord(v as int),
        coord_ok(c),
{
    if v < -(MAX_COORD as i128) {
        -MAX_COORD
    } else if v > MAX_COORD as i128 {
        MAX_COORD
    } else {
        v as i64
    }
}

/// Moves a coordinate by an amount; `INFINITY` stays where it is.
pub fn shift_coord(c: i64, by: i64) -> (r: i64)
    ensures
        r == shift(c, by as int),
        coord_ok(r),
{
    if c == INFINITY {
        INFINITY
    } else {
        clamp_to_coord(c as i128 + by as i128)
    }
}

/// Moves a coordinate back by an amount that `i64` may have been too small for.
fn shift_back(c: i64, by: i64, Ghost(exact): Ghost<int>) -> (r: i64)
    requires
        by == clamp_i64(exact),
        coord_ok(c),
    ensures
        r == shift(c, -exact),
        coord_ok(r),
{
    if c == INFINITY {
        INFINITY
    } else {
        clamp_to_coord(c as i128 - by as i128)
    }
}

/// Interpolates one coordinate.
fn lerp_coord(x: i64, y: i64, num: i64, den: i64) -> (r: i64)
    requires
        coord_ok(x),
        coord_ok(y),
        0 < den,
    ensures
        r == lerp(x, y, num as int, den as int),
        coord_ok(r),
{
    if x == INFINITY || y == INFINITY {
        INFINITY
    } else {
        let part: i64 = mul_div(y - x, num, den);
        clamp_to_coord(x as i128 + part as i128)
    }
}

/// Interpolates the location at coordinate `t` of `axis` between two consecutive objects.
pub fn locate_between(a: &ObjLoc, b: &ObjLoc, axis: ObjAxis, t: i64) -> (loc: ObjLoc)
    requires
        a.wf(),
        b.wf(),
    ensures
        loc == between(*a, *b, axis, t),
        loc.wf(),
{
    let lo: i64 = a.index(axis);
    let hi: i64 = b.index(axis);
    if lo < t && t < hi && hi != INFINITY {
        let num: i64 = t - lo;
        let den: i64 = hi - lo;
        ObjLoc {
            vpos: lerp_coord(a.vpos, b.vpos, num, den),
            pos: lerp_coord(a.pos, b.pos, num, den),
            vtime: lerp_coord(a.vtime, b.vtime, num, den),
            time: lerp_coord(a.time, b.time, num, den),
        }
    } else {
        *a
    }
}

/// Extrapolates the location at coordinate `t` of `axis` before the first object.
pub fn locate_before_first(bpm: BPM, o: &ObjLoc, axis: ObjAxis, t: i64) -> (loc: ObjLoc)
    requires
        o.wf(),
        coord_ok(t),
    ensures
        loc == before_first(bpm, *o, axis, t),
        loc.wf(),
{
    let base: i64 = o.index(axis);
    if base == INFINITY || t >= base || bpm.0 <= 0 {
        *o
    } else {
        let m: i64 = base - t;
        let in_measures = match axis {
            ObjAxis::VirtualPos | ObjAxis::ActualPos => true,
            _ => false,
        };
        let dpos: i64 = if in_measures {
            m
        } else {
            bpm.sec_to_measure(m)
        };
        let dtime: i64 = if in_measures {
            mul_div(m, 240_000_000, bpm.0)
        } else {
            m
        };
        let ghost xpos: int = if in_measures {
            m as int
        } else {
            bpm.sec_to_measure_spec(m as int)
        };
        let ghost xtime: int = if in_measures {
            bpm.measure_to_sec_spec(m as int)
        } else {
            m as int
        };
        ObjLoc {
            vpos: shift_back(o.vpos, dpos, Ghost(xpos)),
            pos: shift_back(o.pos, dpos, Ghost(xpos)),
            vtime: shift_back(o.vtime, dtime, Ghost(xtime)),
            time: shift_back(o.time, dtime, Ghost(xtime)),
        }
    }
}

impl Pointer {
    /// A pointer fits a timeline if it does not point past its end and its location is in
    /// range.
    pub open spec fn wf(&self, timeline: &Timeline) -> bool {
        self.index <= timeline.objs@.len() && self.loc.wf()
    }

    /// The pointer at the absolute coordinate `pos` of `axis`.
    pub open spec fn at_spec(objs: Seq<Obj>, bpm: BPM, axis: ObjAxis, pos: i64) -> Pointer {
        let t = clamp_coord(pos as int);
        let i = scan_forward(objs, 0, axis, t);
        Pointer { index: i as usize, loc: locate(objs, bpm, i, axis, t) }
    }

    /// The pointer after a seek by `delta` along `axis`.
    pub open spec fn seek_spec(self, objs: Seq<Obj>, bpm: BPM, axis: ObjAxis, delta: i64) -> Pointer {
        let t = target(self.loc.at(axis), delta);
        let start = if self.index <= objs.len() {
            self.index as int
        } else {
            objs.len() as int
        };
        let i = if delta >= 0 {
            scan_forward(objs, start, axis, t)
        } else {
            scan_backward(objs, start, axis, t)
        };
        Pointer { index: i as usize, loc: locate(objs, bpm, i, axis, t) }
    }

    /// The pointer past the last object.
    pub open spec fn end_spec(objs: Seq<Obj>) -> Pointer {
        Pointer { index: objs.len() as usize, loc: objs.last().loc }
    }

    /// The match nearest to the coordinate `here` of `axis` among the last one before
    /// `index` and the first one from `index` on. Of two matches at the same distance it is
    /// the earlier one.
    pub open spec fn closest_spec(
        objs: Seq<Obj>,
        filter: ObjFilter,
        index: int,
        axis: ObjAxis,
        here: i64,
    ) -> Option<Pointer> {
        let p = prev_of(objs, filter, index);
        let n = next_of(objs, filter, index);
        if p < 0 {
            object_at(objs, n)
        } else if n >= objs.len() {
            object_at(objs, p)
        } else if distance(objs[p].loc.at(axis), here) <= distance(objs[n].loc.at(axis), here) {
            object_at(objs, p)
        } else {
            object_at(objs, n)
        }
    }

    /// The index limited to the number of objects.
    pub open spec fn start_spec(self, objs: Seq<Obj>) -> int {
        if self.index <= objs.len() {
            self.index as int
        } else {
            objs.len() as int
        }
    }

    fn start(&self, timeline: &Timeline) -> (i: usize)
        ensures
            i == self.start_spec(timeline.objs@),
    {
        if self.index <= timeline.objs.len() {
            self.index
        } else {
            timeline.objs.len()
        }
    }

    /// Computes the location of a pointer with `i` objects behind it.
    fn settle(timeline: &Timeline, i: usize, axis: ObjAxis, t: i64) -> (p: Pointer)
        requires
            timeline.wf(),
            i <= timeline.objs@.len(),
            coord_ok(t),
        ensures
            p.index == i,
            p.loc == locate(timeline.objs@, timeline.initbpm, i as int, axis, t),
            p.wf(timeline),
    {
        let n: usize = timeline.objs.len();
        let loc = if i == 0 {
            locate_before_first(timeline.initbpm, &timeline.objs[0].loc, axis, t)
        } else if i >= n {
            timeline.objs[n - 1].loc
        } else {
            locate_between(&timeline.objs[i - 1].loc, &timeline.objs[i].loc, axis, t)
        };
        Pointer { index: i, loc: loc }
    }

    fn forward(timeline: &Timeline, start: usize, axis: ObjAxis, t: i64) -> (i: usize)
        requires
            start <= timeline.objs@.len(),
        ensures
            i == scan_forward(timeline.objs@, start as int, axis, t),
            start <= i <= timeline.objs@.len(),
    {
        let n: usize = timeline.objs.len();
        let mut i: usize = start;
        while i < n && has_passed(timeline.objs[i].loc.index(axis), t)
            invariant
                n == timeline.objs@.len(),
                start <= i <= n,
                scan_forward(timeline.objs@, i as int, axis, t) == scan_forward(
                    timeline.objs@,
                    start as int,
                    axis,
                    t,
                ),
            decreases n - i,
        {
            i += 1;
        }
        i
    }

    fn backward(timeline: &Timeline, start: usize, axis: ObjAxis, t: i64) -> (i: usize)
        requires
            start <= timeline.objs@.len(),
        ensures
            i == scan_backward(timeline.objs@, start as int, axis, t),
            i <= start,
    {
        let mut i: usize = start;
        while i > 0 && !has_passed(timeline.objs[i - 1].loc.index(axis), t)
            invariant
                i <= start <= timeline.objs@.len(),
                scan_backward(timeline.objs@, i as int, axis, t) == scan_backward(
                    timeline.objs@,
                    start as int,
                    axis,
                    t,
                ),
            decreases i,
        {
            i -= 1;
        }
        i
    }

    /// Returns the pointer at the absolute coordinate `pos` of `axis`.
    pub fn at(timeline: &Timeline, axis: ObjAxis, pos: i64) -> (p: Pointer)
        requires
            timeline.wf(),
        ensures
            p == Pointer::at_spec(timeline.objs@, timeline.initbpm, axis, pos),
            p.wf(timeline),
    {
        let t: i64 = clamp_to_coord(pos as i128);
        let i: usize = Pointer::forward(timeline, 0, axis, t);
        Pointer::settle(timeline, i, axis, t)
    }

    /// Returns the pointer past the last object, at the location of that object.
    pub fn find_end(&self, timeline: &Timeline) -> (p: Pointer)
        requires
            timeline.wf(),
        ensures
            p == Pointer::end_spec(timeline.objs@),
            p.wf(timeline),
    {
        let n: usize = timeline.objs.len();
        Pointer { index: n, loc: timeline.objs[n - 1].loc }
    }

    /// Returns the pointer `delta` away along `axis`, without moving this one. Forwards, it
    /// passes every object up to and including the new coordinate; backwards, it goes back
    /// before every object beyond the new coordinate. The index stays within the objects and
    /// the location stays within `MAX_COORD`.
    pub fn find(&self, timeline: &Timeline, axis: ObjAxis, delta: i64) -> (p: Pointer)
        requires
            timeline.wf(),
        ensures
            p == self.seek_spec(timeline.objs@, timeline.initbpm, axis, delta),
            p.wf(timeline),
    {
        let t: i64 = shift_coord(self.loc.index(axis), delta);
        let start: usize = self.start(timeline);
        let i: usize = if delta >= 0 {
            Pointer::forward(timeline, start, axis, t)
        } else {
            Pointer::backward(timeline, start, axis, t)
        };
        Pointer::settle(timeline, i, axis, t)
    }

    /// Moves the pointer by `delta` along `axis`; see `find`.
    pub fn seek(&mut self, timeline: &Timeline, axis: ObjAxis, delta: i64)
        requires
            timeline.wf(),
        ensures
            *final(self) == old(self).seek_spec(timeline.objs@, timeline.initbpm, axis, delta),
            final(self).wf(timeline),
    {
        let p = self.find(timeline, axis, delta);
        *self = p;
    }

    /// Returns the pointer at the first object at or after this pointer that meets the
    /// condition, if there is one.
    pub fn find_next_of_type(&self, timeline: &Timeline, filter: ObjFilter) -> (r: Option<Pointer>)
        ensures
            r == object_at(
                timeline.objs@,
                next_of(timeline.objs@, filter, self.start_spec(timeline.objs@)),
            ),
    {
        let n: usize = timeline.objs.len();
        let start: usize = self.start(timeline);
        let mut i: usize = start;
        while i < n
            invariant
                n == timeline.objs@.len(),
                start == self.start_spec(timeline.objs@),
                start <= i <= n,
                next_of(timeline.objs@, filter, i as int) == next_of(
                    timeline.objs@,
                    filter,
                    start as int,
                ),
            decreases n - i,
        {
            if filter.matches(&timeline.objs[i]) {
                return Some(Pointer { index: i, loc: timeline.objs[i].loc });
            }
            i += 1;
        }
        None
    }

    /// Returns the pointer at the last object before this pointer that meets the condition,
    /// if there is one.
    pub fn find_previous_of_type(&self, timeline: &Timeline, filter: ObjFilter) -> (r: Option<
        Pointer,
    >)
        ensures
            r == object_at(
                timeline.objs@,
                prev_of(timeline.objs@, filter, self.start_spec(timeline.objs@)),
            ),
    {
        let start: usize = self.start(timeline);
        let mut i: usize = start;
        while i > 0
            invariant
                i <= start <= timeline.objs@.len(),
                start == self.start_spec(timeline.objs@),
                prev_of(timeline.objs@, filter, i as int) == prev_of(
                    timeline.objs@,
                    filter,
                    start as int,
                ),
            decreases i,
        {
            if filter.matches(&timeline.objs[i - 1]) {
                return Some(Pointer { index: i - 1, loc: timeline.objs[i - 1].loc });
            }
            i -= 1;
        }
        None
    }

    /// Returns the pointer at the object nearest to this pointer on `axis` that meets the
    /// condition, looking both ways. Of two such objects at the same distance, one before and
    /// one after, it is the earlier one.
    pub fn find_closest_of_type(&self, timeline: &Timeline, axis: ObjAxis, filter: ObjFilter) -> (r:
        Option<Pointer>)
        ensures
            r == Pointer::closest_spec(
                timeline.objs@,
                filter,
                self.start_spec(timeline.objs@),
                axis,
                self.loc.at(axis),
            ),
    {
        proof {
            lemma_next_of(timeline.objs@, filter, self.start_spec(timeline.objs@));
            lemma_prev_of(timeline.objs@, filter, self.start_spec(timeline.objs@));
        }
        let prev = self.find_previous_of_type(timeline, filter);
        let next = self.find_next_of_type(timeline, filter);
        let here: i64 = self.loc.index(axis);
        match (prev, next) {
            (None, _) => next,
            (Some(_), None) => prev,
            (Some(p), Some(q)) => {
                let dp: i128 = Pointer::gap(p.loc.index(axis), here);
                let dq: i128 = Pointer::gap(q.loc.index(axis), here);
                if dp <= dq {
                    prev
                } else {
                    next
                }
            },
        }
    }

    fn gap(a: i64, b: i64) -> (d: i128)
        ensures
            d == distance(a, b),
    {
        if a >= b {
            a as i128 - b as i128
        } else {
            b as i128 - a as i128
        }
    }

    /// Returns the pointers at the objects from index `from` up to, not including, index `to`.
    fn collect(timeline: &Timeline, from: usize, to: usize) -> (v: Vec<Pointer>)
        requires
            to <= timeline.objs@.len(),
        ensures
            v@ == objects_between(timeline.objs@, from as int, to as int),
    {
        let mut v: Vec<Pointer> = Vec::new();
        let mut i: usize = from;
        while i < to
            invariant
                to <= timeline.objs@.len(),
                from <= i <= to || (to < from && i == from),
                v@ == objects_between(timeline.objs@, from as int, i as int),
            decreases to - i,
        {
            v.push(Pointer { index: i, loc: timeline.objs[i].loc });
            i += 1;
            assert(v@ =~= objects_between(timeline.objs@, from as int, i as int));
        }
        assert(v@ =~= objects_between(timeline.objs@, from as int, to as int));
        v
    }

    /// Moves the pointer by `delta` along `axis`, as `seek` does, and returns the pointers at
    /// the objects that it passed on its way forwards, in order. A move backwards returns
    /// none.
    pub fn mut_until(&mut self, timeline: &Timeline, axis: ObjAxis, delta: i64) -> (yielded: Vec<
        Pointer,
    >)
        requires
            timeline.wf(),
        ensures
            *final(self) == old(self).seek_spec(timeline.objs@, timeline.initbpm, axis, delta),
            final(self).wf(timeline),
            yielded@ == objects_between(
                timeline.objs@,
                old(self).start_spec(timeline.objs@),
                final(self).index as int,
            ),
    {
        let from: usize = self.start(timeline);
        let p = self.find(timeline, axis, delta);
        *self = p;
        Pointer::collect(timeline, from, p.index)
    }

    /// Returns the pointers at the objects from this pointer up to, not including, `other`,
    /// in order, without moving either.
    pub fn upto(&self, timeline: &Timeline, other: &Pointer) -> (yielded: Vec<Pointer>)
        ensures
            yielded@ == objects_between(
                timeline.objs@,
                self.start_spec(timeline.objs@),
                other.start_spec(timeline.objs@),
            ),
    {
        let from: usize = self.start(timeline);
        let to: usize = other.start(timeline);
        Pointer::collect(timeline, from, to)
    }

    /// Returns the pointers at the objects from this pointer up to, not including, `other`,
    /// in order, and moves this pointer to `other` if `other` does not lie behind it.
    pub fn mut_upto(&mut self, timeline: &Timeline, other: &Pointer) -> (yielded: Vec<Pointer>)
        ensures
            yielded@ == objects_between(
                timeline.objs@,
                old(self).start_spec(timeline.objs@),
                other.start_spec(timeline.objs@),
            ),
            *final(self) == if old(self).start_spec(timeline.objs@) <= other.start_spec(
                timeline.objs@,
            ) {
                *other
            } else {
                *old(self)
            },
    {
        let from: usize = self.start(timeline);
        let to: usize = other.start(timeline);
        if from <= to {
            *self = *other;
        }
        Pointer::collect(timeline, from, to)
    }

    /// Pointers are ordered by their actual time alone.
    pub fn lt(&self, other: &Pointer) -> (r: bool)
        ensures
            r == (self.loc.time < other.loc.time),
    {
        self.loc.time < other.loc.time
    }

    /// Pointers are ordered by their actual time alone.
    pub fn le(&self, other: &Pointer) -> (r: bool)
        ensures
            r == (self.loc.time <= other.loc.time),
    {
        self.loc.time <= other.loc.time
    }

    /// Returns the data of the object that the pointer points to, if it points to one.
    pub fn data(&self, timeline: &Timeline) -> (d: Option<ObjData>)
        ensures
            d == if self.index < timeline.objs@.len() {
                Some(timeline.objs@[self.index as int].data)
            } else {
                None
            },
    {
        if self.index < timeline.objs.len() {
            Some(timeline.objs[self.index].data)
        } else {
            None
        }
    }
}

} // verus!
