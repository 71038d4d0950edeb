//! Timeline: the ordered objects of a chart and the facts derived from them.

use vstd::prelude::*;
use crate::obj::{Obj, ObjData, ObjLoc, ObjAxis, BPM, SoundRef, NLANES, UNIT};
use crate::obj::{ObjQueryOps, clamp_i64};
use crate::pointer::Pointer;

verus! {

/// A portion of game data which is not associated to resources and other metadata.
/// Timelines are immutable once built and shared by every pointer into them.
pub struct Timeline {
    /// Initial BPM.
    pub initbpm: BPM,
    /// List of objects sorted by the actual time.
    pub objs: Vec<Obj>,
}

/// Derived timeline information.
#[derive(Clone, Copy, Debug, PartialEq, Eq)]
pub struct TimelineInfo {
    /// The virtual position at which the game play starts: one measure before the chart when
    /// a note lies in its first measure, the beginning of the chart otherwise.
    pub originoffset: i64,
    /// Set to true if the chart has a BPM change.
    pub hasbpmchange: bool,
    /// Set to true if the chart has long note objects.
    pub haslongnote: bool,
    /// The number of visible objects and long notes in the chart.
    pub nnotes: usize,
}

/// True for the data that count as one note: a visible object or the start of a long note.
pub open spec fn is_note(data: ObjData) -> bool {
    data is Visible || data is LNStart
}

/// The number of notes among the objects.
pub open spec fn count_notes(objs: Seq<Obj>) -> nat
    decreases objs.len(),
{
    if objs.len() == 0 {
        0
    } else {
        count_notes(objs.drop_last()) + if is_note(objs.last().data) {
            1nat
        } else {
            0nat
        }
    }
}

/// True if the information is what the objects give: whether one of them changes the BPM,
/// whether one of them starts a long note, how many of them are notes, and the origin of the
/// game play, which lies one measure before the chart if a note lies in its first measure.
pub open spec fn describes(infos: TimelineInfo, objs: Seq<Obj>) -> bool {
    &&& infos.hasbpmchange == (exists|i: int|
        0 <= i < objs.len() && (#[trigger] objs[i]).data is SetBPM)
    &&& infos.haslongnote == (exists|i: int|
        0 <= i < objs.len() && (#[trigger] objs[i]).data is LNStart)
    &&& infos.nnotes == count_notes(objs)
    &&& infos.originoffset == if exists|i: int|
        0 <= i < objs.len() && is_note((#[trigger] objs[i]).data) && objs[i].loc.vpos < UNIT {
        (-UNIT) as int
    } else {
        0int
    }
}

/// The length of a sound in a table of lengths; a sound that the table lacks has no length.
pub open spec fn length_of(lens: Seq<i64>, sref: SoundRef) -> int {
    if sref.0 < lens.len() {
        lens[sref.0 as int] as int
    } else {
        0
    }
}

/// The time at which an object and the sound that it starts by itself are over.
pub open spec fn sounding_end(obj: Obj, lens: Seq<i64>) -> int {
    match obj.data {
        ObjData::Visible(_, Some(sref)) => obj.loc.time + length_of(lens, sref),
        ObjData::LNStart(_, Some(sref)) => obj.loc.time + length_of(lens, sref),
        ObjData::BGM(sref) => obj.loc.time + length_of(lens, sref),
        _ => obj.loc.time as int,
    }
}

/// The latest of the time of the last object and of the ends of the first `upto` objects.
pub open spec fn latest_end(objs: Seq<Obj>, lens: Seq<i64>, upto: int) -> int
    decreases upto,
{
    if upto <= 0 {
        objs.last().loc.time as int
    } else {
        let before = latest_end(objs, lens, upto - 1);
        let here = sounding_end(objs[upto - 1], lens);
        if here > before {
            here
        } else {
            before
        }
    }
}

impl Timeline {
    /// A timeline is well formed if it ends with its only `End` object, every coordinate is
    /// `INFINITY` or within `MAX_COORD`, and every object lies in one of the `NLANES` lanes.
    pub open spec fn wf(&self) -> bool {
        &&& self.objs@.len() > 0
        &&& forall|i: int|
            0 <= i < self.objs@.len() ==> ((#[trigger] self.objs@[i]).data is End <==> i
                == self.objs@.len() - 1)
        &&& forall|i: int| 0 <= i < self.objs@.len() ==> (#[trigger] self.objs@[i]).loc.wf()
        &&& forall|i: int|
            0 <= i < self.objs@.len() ==> match (#[trigger] self.objs@[i]).data.lane_spec() {
                Some(lane) => lane.0 < NLANES,
                None => true,
            }
    }

    /// Tells whether the timeline is well formed.
    pub fn check(&self) -> (ok: bool)
        ensures
            ok == self.wf(),
    {
        let n: usize = self.objs.len();
        if n == 0 {
            return false;
        }
        let mut i: usize = 0;
        while i < n
            invariant
                n == self.objs@.len(),
                0 <= i <= n,
                forall|j: int|
                    0 <= j < i ==> ((#[trigger] self.objs@[j]).data is End <==> j == n - 1),
                forall|j: int| 0 <= j < i ==> (#[trigger] self.objs@[j]).loc.wf(),
                forall|j: int|
                    0 <= j < i ==> match (#[trigger] self.objs@[j]).data.lane_spec() {
                        Some(lane) => lane.0 < NLANES,
                        None => true,
                    },
            decreases n - i,
        {
            let obj = &self.objs[i];
            if obj.is_end() != (i == n - 1) {
                return false;
            }
            if !loc_in_range(&obj.loc) {
                return false;
            }
            match obj.object_lane() {
                Some(lane) => {
                    if lane.0 >= NLANES {
                        return false;
                    }
                },
                None => {},
            }
            i += 1;
        }
        true
    }

    /// Derives the facts of the chart that the game play needs: whether the tempo changes,
    /// whether there is a long note, the number of notes and the origin of the game play.
    pub fn analyze(&self) -> (infos: TimelineInfo)
        ensures
            describes(infos, self.objs@),
    {
        let n: usize = self.objs.len();
        let mut hasbpmchange = false;
        let mut haslongnote = false;
        let mut early = false;
        let mut nnotes: usize = 0;
        let mut i: usize = 0;
        assert(self.objs@.take(0) =~= Seq::<Obj>::empty());
        while i < n
            invariant
                n == self.objs@.len(),
                0 <= i <= n,
                nnotes == count_notes(self.objs@.take(i as int)),
                nnotes <= i,
                hasbpmchange == (exists|j: int|
                    0 <= j < i && (#[trigger] self.objs@[j]).data is SetBPM),
                haslongnote == (exists|j: int|
                    0 <= j < i && (#[trigger] self.objs@[j]).data is LNStart),
                early == (exists|j: int|
                    0 <= j < i && is_note((#[trigger] self.objs@[j]).data) && self.objs@[j].loc.vpos
                        < UNIT),
            decreases n - i,
        {
            let obj = &self.objs[i];
            proof {
                assert(self.objs@.take(i + 1).drop_last() =~= self.objs@.take(i as int));
                assert(self.objs@.take(i + 1).last() == self.objs@[i as int]);
            }
            if obj.is_setbpm() {
                hasbpmchange = true;
            }
            if obj.is_lnstart() {
                haslongnote = true;
            }
            if obj.is_lnstart() || obj.is_visible() {
                nnotes += 1;
                if obj.loc.vpos < UNIT {
                    early = true;
                }
            }
            i += 1;
        }
        assert(self.objs@.take(n as int) =~= self.objs@);
        TimelineInfo {
            originoffset: if early {
                -UNIT
            } else {
                0
            },
            hasbpmchange: hasbpmchange,
            haslongnote: haslongnote,
            nnotes: nnotes,
        }
    }

    /// Returns a pointer to the given position on the given axis: every object up to and
    /// including that position lies behind it.
    pub fn pointer(&self, axis: ObjAxis, pos: i64) -> (p: Pointer)
        requires
            self.wf(),
        ensures
            p == Pointer::at_spec(self.objs@, self.initbpm, axis, pos),
            p.wf(self),
    {
        Pointer::at(self, axis, pos)
    }

    /// Calculates the duration of the chart in seconds, from the origin of the game play to
    /// the end of the chart or of the last sound, whichever comes later. `sound_lengths` holds
    /// the length of each sound resource in seconds.
    pub fn duration(&self, originoffset: i64, sound_lengths: &Vec<i64>) -> (d: i64)
        requires
            self.wf(),
        ensures
            d == clamp_i64(
                latest_end(self.objs@, sound_lengths@, self.objs@.len() as int) - Pointer::at_spec(
                    self.objs@,
                    self.initbpm,
                    ObjAxis::VirtualPos,
                    originoffset,
                ).loc.time,
            ),
    {
        let n: usize = self.objs.len();
        let mut latest: i128 = self.objs[n - 1].loc.time as i128;
        let mut i: usize = 0;
        while i < n
            invariant
                n == self.objs@.len(),
                n > 0,
                0 <= i <= n,
                latest == latest_end(self.objs@, sound_lengths@, i as int),
                i64::MIN <= latest <= i64::MAX + i64::MAX,
            decreases n - i,
        {
            let obj = &self.objs[i];
            let sounding: Option<SoundRef> = match obj.data {
                ObjData::Visible(_, Some(sref)) => Some(sref),
                ObjData::LNStart(_, Some(sref)) => Some(sref),
                ObjData::BGM(sref) => Some(sref),
                _ => None,
            };
            let here: i128 = match sounding {
                Some(sref) => {
                    let len: i64 = if (sref.0 as usize) < sound_lengths.len() {
                        sound_lengths[sref.0 as usize]
                    } else {
                        0
                    };
                    obj.loc.time as i128 + len as i128
                },
                None => obj.loc.time as i128,
            };
            assert(here == sounding_end(self.objs@[i as int], sound_lengths@));
            if here > latest {
                latest = here;
            }
            i += 1;
        }
        let origin = self.pointer(ObjAxis::VirtualPos, originoffset);
        let d: i128 = latest - origin.loc.time as i128;
        if d < i64::MIN as i128 {
            i64::MIN
        } else if d > i64::MAX as i128 {
            i64::MAX
        } else {
            d as i64
        }
    }
}

/// The latest end lies between the earliest and the latest that an object and its sound can
/// come to, as long as every object is reached and every sound has a length within
/// `MAX_COORD`.
proof fn lemma_latest_end_in_range(timeline: &Timeline, lens: Seq<i64>, upto: int)
    requires
        timeline.wf(),
        0 <= upto <= timeline.objs@.len(),
        forall|j: int|
            0 <= j < timeline.objs@.len() ==> (#[trigger] timeline.objs@[j]).loc.time
                != crate::obj::INFINITY,
        forall|k: int|
            0 <= k < lens.len() ==> -crate::obj::MAX_COORD <= #[trigger] lens[k]
                <= crate::obj::MAX_COORD,
    ensures
        -crate::obj::MAX_COORD <= latest_end(timeline.objs@, lens, upto) <= 2
            * crate::obj::MAX_COORD,
    decreases upto,
{
    let objs = timeline.objs@;
    assert(objs.last().loc.wf());
    if upto > 0 {
        lemma_latest_end_in_range(timeline, lens, upto - 1);
        assert(objs[upto - 1].loc.wf());
    }
}

/// The duration of a chart is finite if the chart is reached to its end: where no object
/// lies at `INFINITY` in time and every sound has a length within `MAX_COORD`, the duration is
/// the exact difference of the latest end and the origin of the game play, which is within
/// three times `MAX_COORD`.
pub proof fn lemma_duration_is_finite(timeline: &Timeline, originoffset: i64, lens: Seq<i64>)
    requires
        timeline.wf(),
        forall|j: int|
            0 <= j < timeline.objs@.len() ==> (#[trigger] timeline.objs@[j]).loc.time
                != crate::obj::INFINITY,
        forall|k: int|
            0 <= k < lens.len() ==> -crate::obj::MAX_COORD <= #[trigger] lens[k]
                <= crate::obj::MAX_COORD,
    ensures
        ({
            let d = latest_end(timeline.objs@, lens, timeline.objs@.len() as int) - Pointer::at_spec(
                timeline.objs@,
                timeline.initbpm,
                ObjAxis::VirtualPos,
                originoffset,
            ).loc.time;
            &&& clamp_i64(d) == d
            &&& -2 * crate::obj::MAX_COORD <= d <= 3 * crate::obj::MAX_COORD
            &&& d != crate::obj::INFINITY
        }),
{
    let objs = timeline.objs@;
    lemma_latest_end_in_range(timeline, lens, objs.len() as int);
    let t = crate::pointer::clamp_coord(originoffset as int);
    crate::pointer::lemma_scan_forward(objs, 0, ObjAxis::VirtualPos, t);
    let i = crate::pointer::scan_forward(objs, 0, ObjAxis::VirtualPos, t);
    assert(objs[0].loc.wf());
    assert(objs.last().loc.wf());
    if 0 < i < objs.len() {
        assert(objs[i - 1].loc.wf());
        assert(objs[i].loc.wf());
    }
}

/// Tells whether every coordinate of a location is `INFINITY` or within `MAX_COORD`.
pub fn loc_in_range(loc: &ObjLoc) -> (ok: bool)
    ensures
        ok == loc.wf(),
{
    coord_in_range(loc.vpos) && coord_in_range(loc.pos) && coord_in_range(loc.vtime)
        && coord_in_range(loc.time)
}

/// Tells whether a coordinate is `INFINITY` or within `MAX_COORD`.
pub fn coord_in_range(c: i64) -> (ok: bool)
    ensures
        ok == crate::obj::coord_ok(c),
{
    c == crate::obj::INFINITY || (-crate::obj::MAX_COORD <= c && c <= crate::obj::MAX_COORD)
}

} // verus!
