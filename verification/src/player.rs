//! Core game play logics. Handles the input (if any) and tells which sounds to play, but
//! touches neither the devices nor the user interface: each tick takes the time and the
//! events of one frame and returns what the frame comes to.
//!
//! Two quantities of a tick are rounded toward zero to six decimal places: the distance of an
//! object from the grading line once scaled by the grade factor (`norm_dist`), and the tenth
//! of the way by which the play speed approaches its target (`eased`). While the chart runs
//! backward, the way back is rounded where seconds become measures (`moved`). Timestamps are
//! whole milliseconds and exact.

use rand::rngs::StdRng;
use vstd::prelude::*;
use crate::bms::{Bms, BmsMeta};
use crate::modf::{Modf, apply_modf_to_lanes, chosen_lanes, modified};
use crate::grade::{Grade, Tally, BAD_CUTOFF, MAXGAUGE};
use crate::input::{Event, Input, InputState, KeyMap, VirtualInput};
use crate::keyspec::KeySpec;
use crate::obj::{Obj, ObjData, ObjAxis, BGARef, BPM, Damage, ImageRef, Lane, SoundRef};
use crate::obj::{NLANES, NLAYERS, ObjQueryOps, UNIT, clamp_i64, div_trunc, mul_div, coord_ok};
use crate::pointer::{Pointer, ObjClass, ObjFilter, clamp_coord, distance};
use crate::pointer::{lemma_forward_seek_settles, lemma_seek_zero_idempotent, settled};
use crate::timeline::{Timeline, TimelineInfo};

verus! {

/// The way a chart is played.
#[derive(Clone, Copy, Debug, PartialEq, Eq, Structural)]
pub enum Mode {
    /// Normal game play. The graphical display and input is enabled.
    PlayMode,
    /// Automatic game play. The graphical display is enabled but the input is mostly ignored
    /// except for the play speed change.
    AutoPlayMode,
    /// Exclusive (headless) mode. The graphical display is reduced to the BGA or absent at
    /// all, and no input is taken but the request to quit.
    ExclusiveMode,
}

/// The way the BGA is shown.
#[derive(Clone, Copy, Debug, PartialEq, Eq, Structural)]
pub enum Bga {
    /// Both BGA and BGA movie is enabled.
    BgaAndMovie,
    /// BGA is enabled but BGA movie is disabled.
    BgaButNoMovie,
    /// BGA is disabled.
    NoBga,
}

/// The game play options that the player needs.
#[derive(Clone, Copy, Debug, PartialEq, Eq)]
pub struct Options {
    /// Game play mode.
    pub mode: Mode,
    /// BGA display mode.
    pub bga: Bga,
    /// Initial play speed.
    pub playspeed: i64,
}

impl Options {
    /// True unless the chart is played by hand.
    pub open spec fn is_autoplay_spec(self) -> bool {
        !(self.mode is PlayMode)
    }

    /// True in the exclusive mode.
    pub open spec fn is_exclusive_spec(self) -> bool {
        self.mode is ExclusiveMode
    }

    /// Returns true if the objects are played by themselves.
    pub fn is_autoplay(&self) -> (r: bool)
        ensures
            r == self.is_autoplay_spec(),
    {
        match self.mode {
            Mode::PlayMode => false,
            _ => true,
        }
    }

    /// Returns true if the BGA is displayed.
    pub fn has_bga(&self) -> (r: bool)
        ensures
            r == !(self.bga is NoBga),
    {
        match self.bga {
            Bga::NoBga => false,
            _ => true,
        }
    }

    /// Returns true if the BGA movie is enabled.
    pub fn has_movie(&self) -> (r: bool)
        ensures
            r == (self.bga is BgaAndMovie),
    {
        match self.bga {
            Bga::BgaAndMovie => true,
            _ => false,
        }
    }

    /// Returns true if no input but the request to quit is taken.
    pub fn is_exclusive(&self) -> (r: bool)
        ensures
            r == self.is_exclusive_spec(),
    {
        match self.mode {
            Mode::ExclusiveMode => true,
            _ => false,
        }
    }
}

/// Something for the caller to do after a tick.
#[derive(Clone, Copy, Debug, PartialEq, Eq)]
pub enum Effect {
    /// Play the sound; `true` for a background sound, which is played at a lower volume and in
    /// another group of channels than the key sounds.
    Sound(SoundRef, bool),
    /// Play the beep that confirms a change of the play speed.
    Beep,
}

/// The sounds whose end a finished chart waits for.
#[derive(Clone, Copy, Debug, PartialEq, Eq, Structural)]
pub enum SoundGroup {
    /// Every sound but the beep.
    AllButBeep,
    /// The key sounds.
    KeySounds,
}

/// Whether the caller should keep calling `tick`.
#[derive(Clone, Copy, Debug, PartialEq, Eq)]
pub enum Verdict {
    /// The play goes on.
    Continue,
    /// The play is over.
    Stop,
    /// The play is over because the user asked for it.
    Quit,
    /// The chart is over: the play goes on as long as a sound of the group, those of this
    /// tick included, is still playing.
    ContinueWhilePlaying(SoundGroup),
}

impl Verdict {
    /// Tells whether to keep calling `tick`, given whether a sound of the group waited for is
    /// still playing.
    pub fn keep_going(&self, playing: bool) -> (r: bool)
        ensures
            r == match *self {
                Verdict::Continue => true,
                Verdict::Stop => false,
                Verdict::Quit => false,
                Verdict::ContinueWhilePlaying(_) => playing,
            },
    {
        match *self {
            Verdict::Continue => true,
            Verdict::Stop => false,
            Verdict::Quit => false,
            Verdict::ContinueWhilePlaying(_) => playing,
        }
    }
}

/// What a tick comes to.
pub struct TickResult {
    /// Whether the caller should keep calling `tick`.
    pub verdict: Verdict,
    /// What the caller has to do, in order.
    pub effects: Vec<Effect>,
}

/// The play speed marks, in millionths, from the lowest to the highest.
pub open spec fn speed_marks() -> Seq<i64> {
    seq![
        100_000i64,
        200_000,
        400_000,
        600_000,
        800_000,
        1_000_000,
        1_200_000,
        1_500_000,
        2_000_000,
        2_500_000,
        3_000_000,
        3_500_000,
        4_000_000,
        4_500_000,
        5_000_000,
        5_500_000,
        6_000_000,
        7_000_000,
        8_000_000,
        10_000_000,
        15_000_000,
        25_000_000,
        40_000_000,
        60_000_000,
        99_000_000,
    ]
}

/// The number of play speed marks.
pub const NMARKS: usize = 25;

/// The highest mark below the speed by more than a thousandth, if there is one.
pub open spec fn lower_mark(current: i64) -> Option<i64> {
    if exists|i: int| 0 <= i < NMARKS && #[trigger] speed_marks()[i] < current - 1000 {
        let i = choose|i: int|
            0 <= i < NMARKS && #[trigger] speed_marks()[i] < current - 1000 && (i + 1 < NMARKS
                ==> speed_marks()[i + 1] >= current - 1000);
        Some(speed_marks()[i])
    } else {
        None
    }
}

/// The lowest mark above the speed by more than a thousandth, if there is one.
pub open spec fn higher_mark(current: i64) -> Option<i64> {
    if exists|i: int| 0 <= i < NMARKS && #[trigger] speed_marks()[i] > current + 1000 {
        let i = choose|i: int|
            0 <= i < NMARKS && #[trigger] speed_marks()[i] > current + 1000 && (i > 0
                ==> speed_marks()[i - 1] <= current + 1000);
        Some(speed_marks()[i])
    } else {
        None
    }
}

/// Returns the play speed marks.
pub fn speed_mark_list() -> (marks: Vec<i64>)
    ensures
        marks@ == speed_marks(),
{
    let marks: Vec<i64> = vec![
        100_000i64,
        200_000,
        400_000,
        600_000,
        800_000,
        1_000_000,
        1_200_000,
        1_500_000,
        2_000_000,
        2_500_000,
        3_000_000,
        3_500_000,
        4_000_000,
        4_500_000,
        5_000_000,
        5_500_000,
        6_000_000,
        7_000_000,
        8_000_000,
        10_000_000,
        15_000_000,
        25_000_000,
        40_000_000,
        60_000_000,
        99_000_000,
    ];
    assert(marks@ =~= speed_marks());
    marks
}

/// The marks rise.
pub proof fn lemma_marks_rise()
    ensures
        speed_marks().len() == NMARKS,
        forall|i: int, j: int|
            0 <= i < j < NMARKS ==> #[trigger] speed_marks()[i] < #[trigger] speed_marks()[j],
{
    let m = speed_marks();
    assert forall|i: int, j: int| 0 <= i < j < NMARKS implies #[trigger] m[i] < #[trigger] m[j] by {
        assert(m[0] < m[1] < m[2] < m[3] < m[4] < m[5] < m[6] < m[7] < m[8] < m[9] < m[10]
            < m[11] < m[12]);
        assert(m[12] < m[13] < m[14] < m[15] < m[16] < m[17] < m[18] < m[19] < m[20] < m[21]
            < m[22] < m[23] < m[24]);
    }
}

/// Finds the next nearest play speed mark below the speed, if any.
pub fn next_speed_mark(current: i64) -> (mark: Option<i64>)
    ensures
        mark == lower_mark(current),
{
    let marks = speed_mark_list();
    proof {
        lemma_marks_rise();
    }
    let mut prev: Option<i64> = None;
    let mut i: usize = 0;
    while i < NMARKS
        invariant
            marks@ == speed_marks(),
            0 <= i <= NMARKS,
            forall|j: int| 0 <= j < i ==> #[trigger] speed_marks()[j] < current - 1000,
            prev == if i == 0 {
                None
            } else {
                Some(speed_marks()[i - 1])
            },
            forall|a: int, b: int|
                0 <= a < b < NMARKS ==> #[trigger] speed_marks()[a] < #[trigger] speed_marks()[b],
        decreases NMARKS - i,
    {
        let speed: i64 = marks[i];
        if (speed as i128) < current as i128 - 1000 {
            prev = Some(speed);
        } else {
            proof {
                if i > 0 {
                    let w = choose|k: int|
                        0 <= k < NMARKS && #[trigger] speed_marks()[k] < current - 1000 && (k + 1
                            < NMARKS ==> speed_marks()[k + 1] >= current - 1000);
                    assert(speed_marks()[i - 1] < current - 1000);
                    if w < i - 1 {
                        assert(speed_marks()[w + 1] <= speed_marks()[i - 1]) by {
                            if w + 1 < i - 1 {
                                assert(speed_marks()[w + 1] < speed_marks()[i - 1]);
                            }
                        }
                    }
                    if w > i - 1 {
                        assert(speed_marks()[i as int] <= speed_marks()[w]) by {
                            if i < w {
                                assert(speed_marks()[i as int] < speed_marks()[w]);
                            }
                        }
                    }
                } else {
                    assert forall|k: int| 0 <= k < NMARKS implies !(#[trigger] speed_marks()[k]
                        < current - 1000) by {
                        if k > 0 {
                            assert(speed_marks()[0] < speed_marks()[k]);
                        }
                    }
                }
            }
            return prev;
        }
        i += 1;
    }
    proof {
        let w = choose|k: int|
            0 <= k < NMARKS && #[trigger] speed_marks()[k] < current - 1000 && (k + 1 < NMARKS
                ==> speed_marks()[k + 1] >= current - 1000);
        assert(speed_marks()[NMARKS - 1] < current - 1000);
        if w < NMARKS - 1 {
            assert(speed_marks()[w + 1] < current - 1000);
        }
    }
    prev
}

/// Finds the previous nearest play speed mark above the speed, if any.
pub fn previous_speed_mark(current: i64) -> (mark: Option<i64>)
    ensures
        mark == higher_mark(current),
{
    let marks = speed_mark_list();
    proof {
        lemma_marks_rise();
    }
    let mut next: Option<i64> = None;
    let mut i: usize = NMARKS;
    while i > 0
        invariant
            marks@ == speed_marks(),
            0 <= i <= NMARKS,
            forall|j: int| i <= j < NMARKS ==> #[trigger] speed_marks()[j] > current + 1000,
            next == if i == NMARKS {
                None
            } else {
                Some(speed_marks()[i as int])
            },
            forall|a: int, b: int|
                0 <= a < b < NMARKS ==> #[trigger] speed_marks()[a] < #[trigger] speed_marks()[b],
        decreases i,
    {
        let speed: i64 = marks[i - 1];
        if (speed as i128) > current as i128 + 1000 {
            next = Some(speed);
        } else {
            proof {
                if i < NMARKS {
                    let w = choose|k: int|
                        0 <= k < NMARKS && #[trigger] speed_marks()[k] > current + 1000 && (k > 0
                            ==> speed_marks()[k - 1] <= current + 1000);
                    assert(speed_marks()[i as int] > current + 1000);
                    if w > i {
                        assert(speed_marks()[i as int] <= speed_marks()[w - 1]) by {
                            if i < w - 1 {
                                assert(speed_marks()[i as int] < speed_marks()[w - 1]);
                            }
                        }
                    }
                    if w < i {
                        assert(speed_marks()[w] <= speed_marks()[i - 1]) by {
                            if w < i - 1 {
                                assert(speed_marks()[w] < speed_marks()[i - 1]);
                            }
                        }
                    }
                } else {
                    assert forall|k: int| 0 <= k < NMARKS implies !(#[trigger] speed_marks()[k]
                        > current + 1000) by {
                        if k < NMARKS - 1 {
                            assert(speed_marks()[k] < speed_marks()[NMARKS - 1]);
                        }
                    }
                }
            }
            return next;
        }
        i -= 1;
    }
    proof {
        let w = choose|k: int|
            0 <= k < NMARKS && #[trigger] speed_marks()[k] > current + 1000 && (k > 0
                ==> speed_marks()[k - 1] <= current + 1000);
        assert(speed_marks()[0] > current + 1000);
        if w > 0 {
            assert(speed_marks()[w - 1] > current + 1000);
        }
    }
    next
}

/// Game play states independent to the display.
pub struct Player {
    /// The game play options.
    pub opts: Options,
    /// The current chart metadata.
    pub meta: BmsMeta,
    /// The current timeline.
    pub timeline: Timeline,
    /// The derived timeline information.
    pub infos: TimelineInfo,
    /// The length of the chart in seconds as calculated by `Timeline::duration`.
    pub duration: i64,
    /// The key specification.
    pub keyspec: KeySpec,
    /// The input mapping.
    pub keymap: KeyMap,
    /// Set to true if the corresponding object of the timeline had graded and should not be
    /// graded twice. Its length equals to that of the objects.
    pub nograding: Vec<bool>,
    /// Currently active BGA layers.
    pub bga: Vec<BGARef>,
    /// The chart expansion rate, or "play speed". Higher play speed means that objects will
    /// fall much more quickly (hence the name).
    pub playspeed: i64,
    /// The play speed targeted for speed change if any. It is also the value displayed while
    /// the play speed is changing.
    pub targetspeed: Option<i64>,
    /// The current BPM. Can be negative, in that case the chart will scroll backwards.
    pub bpm: BPM,
    /// The timestamp at the last tick, in milliseconds.
    pub now: u64,
    /// The timestamp at the first tick.
    pub origintime: u64,
    /// A pointer to the point where the game play starts (and not necessarily equal to zero
    /// point in the chart). Corresponds to `origintime` and `TimelineInfo::originoffset`.
    pub origin: Pointer,
    /// A pointer to the grading line.
    pub cur: Pointer,
    /// A pointer to the lower bound of the grading area containing `cur`.
    pub checked: Pointer,
    /// A pointer to objects for the start of LN which grading is in progress.
    pub thru: Vec<Option<Pointer>>,
    /// The pointer to the first encountered `SetBPM` object with a negative value. When this
    /// is set, the normal timeline routine is disabled and `cur` always moves backwards with
    /// given BPM.
    pub reverse: Option<Pointer>,
    /// The scale factor for grading area. The factor less than 1 causes the grading area
    /// shrink.
    pub gradefactor: i64,
    /// The last grade, the numbers of each grade, the combo, the score and the gauge.
    pub tally: Tally,
    /// The health gauge required to survive at the end of the song. Note that the gauge
    /// less than this value (or even zero) doesn't cause the instant game over;
    /// only `InstantDeath` value from `Damage` does.
    pub survival: i64,
    /// The number of keyboard or joystick keys, mapped to each lane and and currently pressed.
    pub keymultiplicity: Vec<usize>,
    /// The state of joystick axes.
    pub joystate: Vec<InputState>,
}

/// What a play does not change.
pub struct Rules {
    pub opts: Options,
    pub objs: Seq<Obj>,
    pub initbpm: BPM,
    pub nnotes: usize,
    pub originoffset: i64,
    pub keymap: Map<u64, VirtualInput>,
    pub gradefactor: i64,
    pub origin: Pointer,
    pub origintime: u64,
}

/// What a tick may change.
pub struct PlayState {
    pub playspeed: i64,
    pub targetspeed: Option<i64>,
    pub bpm: BPM,
    pub now: u64,
    pub cur: Pointer,
    pub checked: Pointer,
    pub reverse: Option<Pointer>,
    pub tally: Tally,
    pub nograding: Seq<bool>,
    pub bga: Seq<BGARef>,
    pub thru: Seq<Option<Pointer>>,
    pub keymultiplicity: Seq<usize>,
    pub joystate: Seq<InputState>,
}

/// The pointers that a tick works on before it stores them: the grading line, the lower bound
/// of the grading area and the long notes in progress.
pub struct Frame {
    pub cur: Pointer,
    pub checked: Pointer,
    pub thru: Seq<Option<Pointer>>,
}

/// The difference of two coordinates, limited to what an `i64` can hold.
pub open spec fn diff(to: i64, from: i64) -> i64 {
    clamp_i64(to - from) as i64
}

/// The distance in virtual time from `from` to `to`, scaled by the grade factor.
pub open spec fn norm_dist(gradefactor: i64, from: i64, to: i64) -> i64 {
    clamp_i64(div_trunc(diff(to, from) * gradefactor, UNIT as int)) as i64
}

/// True if a normalized distance is within the grading area.
pub open spec fn in_area(dist: i64) -> bool {
    -BAD_CUTOFF < dist < BAD_CUTOFF
}

/// True if every object that is resolved by the flags `before` is resolved by the flags
/// `after`, which are as many.
pub open spec fn flags_kept(before: Seq<bool>, after: Seq<bool>) -> bool {
    before.len() == after.len() && forall|j: int|
        0 <= j < before.len() && before[j] ==> #[trigger] after[j]
}

/// The pointer at the object of index `j`.
pub open spec fn ptr_at(objs: Seq<Obj>, j: int) -> Pointer {
    Pointer { index: j as usize, loc: objs[j].loc }
}

/// The play speed one tick later: a speed within a thousandth of its target becomes the
/// target, any other comes closer to it by a tenth of the difference.
pub open spec fn eased(s: PlayState) -> PlayState {
    match s.targetspeed {
        Some(t) => {
            let delta = t - s.playspeed;
            if -1000 < delta < 1000 {
                PlayState { playspeed: t, targetspeed: None, ..s }
            } else {
                PlayState { playspeed: clamp_i64(s.playspeed + div_trunc(delta, 10)) as i64, ..s }
            }
        },
        None => s,
    }
}

/// The actual time of the chart at the timestamp `now`.
pub open spec fn chart_time(r: Rules, now: u64) -> i64 {
    let elapsed = if now >= r.origintime {
        now - r.origintime
    } else {
        0
    };
    clamp_coord(elapsed * 1000 + r.origin.loc.time)
}

/// The play state after a grade for a normalized distance.
pub open spec fn graded_at(r: Rules, s: PlayState, dist: i64) -> PlayState {
    PlayState { tally: s.tally.graded_by_distance(dist, s.now, r.nnotes), ..s }
}

/// The play state after a MISS grade with the given damage.
pub open spec fn missed(r: Rules, s: PlayState, damage: Damage) -> PlayState {
    PlayState { tally: s.tally.graded(Grade::MISS, 0, Some(damage), s.now, r.nnotes), ..s }
}

/// The effects with the sound added, unless it is the placeholder sound of number zero.
pub open spec fn with_nonzero(effects: Seq<Effect>, sref: SoundRef, bgm: bool) -> Seq<Effect> {
    if sref.0 > 0 {
        effects.push(Effect::Sound(sref, bgm))
    } else {
        effects
    }
}

/// The effects with the sound added, if there is one.
pub open spec fn with_sound(effects: Seq<Effect>, sref: Option<SoundRef>) -> Seq<Effect> {
    match sref {
        Some(snd) => effects.push(Effect::Sound(snd, false)),
        None => effects,
    }
}

/// What the activation of the objects from index `j` up to `end` comes to, in order: a
/// background sound plays, a BGA layer changes, the BPM changes, and under autoplay a note
/// plays its sound and is graded at no distance. A BPM of zero ends the play at once, which
/// the last component tells; a negative BPM sets the point where the chart reverses.
pub open spec fn activated(r: Rules, s: PlayState, effects: Seq<Effect>, j: int, end: int) -> (
    PlayState,
    Seq<Effect>,
    bool,
)
    decreases end - j,
{
    if j >= end || j < 0 || j >= r.objs.len() {
        (s, effects, false)
    } else {
        match r.objs[j].data {
            ObjData::BGM(sref) => activated(r, s, with_nonzero(effects, sref, true), j + 1, end),
            ObjData::SetBGA(layer, bgaref) => activated(
                r,
                PlayState { bga: s.bga.update(layer.index_spec(), bgaref), ..s },
                effects,
                j + 1,
                end,
            ),
            ObjData::SetBPM(newbpm) => if newbpm.0 == 0 {
                (PlayState { bpm: newbpm, ..s }, effects, true)
            } else if newbpm.0 < 0 {
                activated(
                    r,
                    PlayState { bpm: newbpm, reverse: Some(ptr_at(r.objs, j)), ..s },
                    effects,
                    j + 1,
                    end,
                )
            } else {
                activated(r, PlayState { bpm: newbpm, ..s }, effects, j + 1, end)
            },
            ObjData::Visible(_, sref) => if r.opts.is_autoplay_spec() {
                activated(
                    r,
                    graded_at(r, s, 0),
                    match sref {
                        Some(snd) => with_nonzero(effects, snd, false),
                        None => effects,
                    },
                    j + 1,
                    end,
                )
            } else {
                activated(r, s, effects, j + 1, end)
            },
            ObjData::LNStart(_, sref) => if r.opts.is_autoplay_spec() {
                activated(
                    r,
                    graded_at(r, s, 0),
                    match sref {
                        Some(snd) => with_nonzero(effects, snd, false),
                        None => effects,
                    },
                    j + 1,
                    end,
                )
            } else {
                activated(r, s, effects, j + 1, end)
            },
            _ => activated(r, s, effects, j + 1, end),
        }
    }
}

/// The grading line at the actual time `curtime`. While the chart reverses, it lies where
/// the negative BPM has brought it back from the point of reversal.
pub open spec fn moved(r: Rules, s: PlayState, curtime: i64) -> Pointer {
    match s.reverse {
        Some(rev) => {
            let newpos = clamp_i64(
                rev.loc.pos + s.bpm.sec_to_measure_spec(diff(curtime, rev.loc.time) as int),
            );
            s.cur.seek_spec(
                r.objs,
                r.initbpm,
                ObjAxis::ActualPos,
                clamp_i64(newpos - s.cur.loc.pos) as i64,
            )
        },
        None => s.cur.seek_spec(
            r.objs,
            r.initbpm,
            ObjAxis::ActualTime,
            diff(curtime, s.cur.loc.time),
        ),
    }
}

/// True if the object of index `j` has escaped the grading area behind the grading line.
pub open spec fn escaped(r: Rules, cur: Pointer, j: int) -> bool {
    norm_dist(r.gradefactor, r.objs[j].loc.vtime, cur.loc.vtime) >= BAD_CUTOFF
}

/// True if the escape of the object of index `j` is a miss: it is not resolved yet, and it is
/// a visible object, the start of a long note, or the end of a long note in progress.
pub open spec fn missable(r: Rules, s: PlayState, thru: Seq<Option<Pointer>>, j: int) -> bool {
    !s.nograding[j] && match r.objs[j].data {
        ObjData::Visible(..) => true,
        ObjData::LNStart(..) => true,
        ObjData::LNDone(lane, _) => thru[lane.0 as int] is Some,
        _ => false,
    }
}

/// What the sweep of the objects from index `j` up to `end` comes to: the first object that
/// has not escaped stops the sweep and becomes the lower bound of the grading area; each miss
/// before it is graded and ends the long note of its lane. If no object stops the sweep, the
/// lower bound is the grading line.
pub open spec fn swept(r: Rules, s: PlayState, f: Frame, j: int, end: int) -> (PlayState, Frame)
    decreases end - j,
{
    if j >= end || j < 0 || j >= r.objs.len() {
        (s, Frame { checked: f.cur, ..f })
    } else if !escaped(r, f.cur, j) {
        (s, Frame { checked: ptr_at(r.objs, j), ..f })
    } else if missable(r, s, f.thru, j) {
        swept(
            r,
            missed(r, s, Damage::GaugeDamage(crate::grade::MISS_DAMAGE)),
            Frame { thru: f.thru.update(r.objs[j].data.lane_spec().unwrap().0 as int, None), ..f },
            j + 1,
            end,
        )
    } else {
        swept(r, s, f, j + 1, end)
    }
}

/// The sweep of a tick: none under autoplay, and none while the lower bound of the grading
/// area lies beyond the grading line.
pub open spec fn sweep(r: Rules, s: PlayState, f: Frame) -> (PlayState, Frame) {
    let from = f.checked.start_spec(r.objs);
    let to = f.cur.start_spec(r.objs);
    if r.opts.is_autoplay_spec() || from > to {
        (s, f)
    } else {
        swept(r, s, f, from, to)
    }
}

/// True if the object of index `j` is open to a key going down: it meets the condition, is
/// not resolved yet and does not lie before index `from`.
pub open spec fn open_at(objs: Seq<Obj>, nograding: Seq<bool>, filter: ObjFilter, from: int, j: int) -> bool {
    0 <= j < objs.len() && from <= j && j < nograding.len() && !nograding[j]
        && filter.matches_spec(objs[j].data)
}

/// The index of the first open object from `i` on, or the number of objects if there is none.
pub open spec fn next_open(
    objs: Seq<Obj>,
    nograding: Seq<bool>,
    filter: ObjFilter,
    from: int,
    i: int,
) -> int
    decreases objs.len() - i,
{
    if i < 0 || i >= objs.len() {
        objs.len() as int
    } else if open_at(objs, nograding, filter, from, i) {
        i
    } else {
        next_open(objs, nograding, filter, from, i + 1)
    }
}

/// The index of the last open object before `i`, or -1 if there is none.
pub open spec fn prev_open(
    objs: Seq<Obj>,
    nograding: Seq<bool>,
    filter: ObjFilter,
    from: int,
    i: int,
) -> int
    decreases i,
{
    if i <= 0 || i > objs.len() {
        -1
    } else if open_at(objs, nograding, filter, from, i - 1) {
        i - 1
    } else {
        prev_open(objs, nograding, filter, from, i - 1)
    }
}

/// The index of the open object nearest in virtual time to the grading line, looking both
/// ways from it, or -1 if there is none. Of two open objects at the same distance, one before
/// and one after, it is the earlier one.
pub open spec fn nearest_open(
    objs: Seq<Obj>,
    nograding: Seq<bool>,
    filter: ObjFilter,
    from: int,
    cur: Pointer,
) -> int {
    let p = prev_open(objs, nograding, filter, from, cur.start_spec(objs));
    let n = next_open(objs, nograding, filter, from, cur.start_spec(objs));
    if p < 0 {
        if n >= objs.len() {
            -1
        } else {
            n
        }
    } else if n >= objs.len() {
        p
    } else if distance(objs[p].loc.vtime, cur.loc.vtime) <= distance(
        objs[n].loc.vtime,
        cur.loc.vtime,
    ) {
        p
    } else {
        n
    }
}

/// The condition on the objects of a lane that sound when the key of the lane goes down.
pub open spec fn soundable_in(lane: Lane) -> ObjFilter {
    ObjFilter { class: ObjClass::Soundable, lane: Some(lane) }
}

/// The condition on the objects of a lane that are graded.
pub open spec fn gradable_in(lane: Lane) -> ObjFilter {
    ObjFilter { class: ObjClass::Gradable, lane: Some(lane) }
}

/// The condition on the ends of the long notes of a lane.
pub open spec fn lndone_in(lane: Lane) -> ObjFilter {
    ObjFilter { class: ObjClass::LNDone, lane: Some(lane) }
}

/// What the key of a lane going down comes to. The nearest unresolved soundable object of the
/// lane sounds. The nearest unresolved gradable object of the lane at or after the lower bound
/// of the grading area is what the key is held against: if it is a visible object or the start
/// of a long note and lies within the grading area, it is resolved and graded by its distance,
/// and as the start of a long note it becomes the long note in progress of the lane. If it is
/// the end of a long note, nothing is graded, whatever lies behind it: the end of a long note
/// is resolved by the key going up.
pub open spec fn pressed(r: Rules, s: PlayState, f: Frame, effects: Seq<Effect>, lane: Lane) -> (
    PlayState,
    Frame,
    Seq<Effect>,
) {
    let snd = nearest_open(r.objs, s.nograding, soundable_in(lane), 0, f.cur);
    let effects1 = if snd >= 0 {
        with_sound(effects, r.objs[snd].data.object_sound_spec())
    } else {
        effects
    };
    let j = nearest_open(r.objs, s.nograding, gradable_in(lane), f.checked.index as int, f.cur);
    if j >= 0 && !(r.objs[j].data is LNDone) && in_area(
        norm_dist(r.gradefactor, f.cur.loc.vtime, r.objs[j].loc.vtime),
    ) {
        let dist = norm_dist(r.gradefactor, f.cur.loc.vtime, r.objs[j].loc.vtime);
        (
            graded_at(r, PlayState { nograding: s.nograding.update(j, true), ..s }, dist),
            if r.objs[j].data is LNStart {
                Frame { thru: f.thru.update(lane.0 as int, Some(ptr_at(r.objs, j))), ..f }
            } else {
                f
            },
            effects1,
        )
    } else {
        (s, f, effects1)
    }
}

/// What the key of a lane going up comes to. Without a long note in progress in the lane,
/// nothing. Else the long note ends: cleanly, its end resolved without a grade, if the next
/// end of a long note of the lane after its start lies within the grading area; with a MISS
/// grade if not.
pub open spec fn unpressed(r: Rules, s: PlayState, f: Frame, lane: Lane) -> (PlayState, Frame) {
    match f.thru[lane.0 as int] {
        Some(start) => {
            let j = crate::pointer::next_of(r.objs, lndone_in(lane), start.start_spec(r.objs));
            let f1 = Frame { thru: f.thru.update(lane.0 as int, None), ..f };
            if j < r.objs.len() && in_area(
                norm_dist(r.gradefactor, f.cur.loc.vtime, r.objs[j].loc.vtime),
            ) {
                (PlayState { nograding: s.nograding.update(j, true), ..s }, f1)
            } else {
                (missed(r, s, Damage::GaugeDamage(crate::grade::MISS_DAMAGE)), f1)
            }
        },
        None => (s, f),
    }
}

/// True if an input in the given state lets go of the lane: a discrete input in its neutral
/// state, if no other input holds the lane; a continuous input in its neutral state or in
/// another state than the one it was in.
pub open spec fn lets_go(s: PlayState, lane: Lane, continuous: bool, state: InputState) -> bool {
    if continuous {
        state is Neutral || s.joystate[lane.0 as int] != state
    } else {
        state is Neutral && s.keymultiplicity[lane.0 as int] <= 1
    }
}

/// The state of the lanes after an input in the given state may have let go of the lane: the
/// number of discrete inputs that hold the lane is one less, but never below none.
pub open spec fn released(s: PlayState, lane: Lane, continuous: bool, state: InputState) -> PlayState {
    if continuous {
        if state is Neutral || s.joystate[lane.0 as int] != state {
            PlayState { joystate: s.joystate.update(lane.0 as int, state), ..s }
        } else {
            s
        }
    } else if state is Neutral && s.keymultiplicity[lane.0 as int] > 0 {
        PlayState {
            keymultiplicity: s.keymultiplicity.update(
                lane.0 as int,
                (s.keymultiplicity[lane.0 as int] - 1) as usize,
            ),
            ..s
        }
    } else {
        s
    }
}

/// True if an input in the given state takes hold of the lane: a discrete input out of its
/// neutral state, if no other input holds the lane; a continuous input out of its neutral
/// state.
pub open spec fn takes_hold(s: PlayState, lane: Lane, continuous: bool, state: InputState) -> bool {
    !(state is Neutral) && (continuous || s.keymultiplicity[lane.0 as int] == 0)
}

/// The state of the lanes after an input in the given state may have taken hold of the lane.
pub open spec fn held(s: PlayState, lane: Lane, continuous: bool, state: InputState) -> PlayState {
    if state is Neutral {
        s
    } else if continuous {
        PlayState { joystate: s.joystate.update(lane.0 as int, state), ..s }
    } else {
        PlayState {
            keymultiplicity: s.keymultiplicity.update(
                lane.0 as int,
                crate::grade::bump(s.keymultiplicity[lane.0 as int]),
            ),
            ..s
        }
    }
}

/// The speed that is displayed: the target of a change in progress, else the play speed.
pub open spec fn nominal(s: PlayState) -> i64 {
    match s.targetspeed {
        Some(t) => t,
        None => s.playspeed,
    }
}

/// What one event comes to; the last component tells whether it asks to quit. An event that
/// is no input or no mapped input is dropped, and so is any input but the request to quit in
/// the exclusive mode. An input of a lane first may let go of the lane and then may take hold
/// of it, which it does not under autoplay or for a lane out of range. An input that changes
/// the play speed sets the next mark in its direction as the target and beeps, if there is
/// such a mark.
pub open spec fn input_step(
    r: Rules,
    s: PlayState,
    f: Frame,
    effects: Seq<Effect>,
    event: Event,
) -> (PlayState, Frame, Seq<Effect>, bool) {
    match Input::from_event_spec(event) {
        None => (s, f, effects, false),
        Some((Input::Quit, _)) => (s, f, effects, true),
        Some((key, state)) => if !r.keymap.contains_key(key.code_spec())
            || r.opts.is_exclusive_spec() {
            (s, f, effects, false)
        } else {
            match r.keymap[key.code_spec()] {
                VirtualInput::SpeedDown => if state is Neutral {
                    (s, f, effects, false)
                } else {
                    match lower_mark(nominal(s)) {
                        Some(m) => (
                            PlayState { targetspeed: Some(m), ..s },
                            f,
                            effects.push(Effect::Beep),
                            false,
                        ),
                        None => (s, f, effects, false),
                    }
                },
                VirtualInput::SpeedUp => if state is Neutral {
                    (s, f, effects, false)
                } else {
                    match higher_mark(nominal(s)) {
                        Some(m) => (
                            PlayState { targetspeed: Some(m), ..s },
                            f,
                            effects.push(Effect::Beep),
                            false,
                        ),
                        None => (s, f, effects, false),
                    }
                },
                VirtualInput::Lane(lane) => if r.opts.is_autoplay_spec() || lane.0 >= NLANES {
                    (s, f, effects, false)
                } else {
                    let continuous = key.is_continuous_spec();
                    let (s1, f1) = if lets_go(s, lane, continuous, state) {
                        unpressed(r, released(s, lane, continuous, state), f, lane)
                    } else {
                        (released(s, lane, continuous, state), f)
                    };
                    if takes_hold(s1, lane, continuous, state) {
                        let (s2, f2, e2) = pressed(
                            r,
                            held(s1, lane, continuous, state),
                            f1,
                            effects,
                            lane,
                        );
                        (s2, f2, e2, false)
                    } else {
                        (held(s1, lane, continuous, state), f1, effects, false)
                    }
                },
            }
        },
    }
}

/// What the events from index `k` on come to, in order; the last component tells whether one
/// of them asked to quit, which ends the tick at once.
pub open spec fn inputs_from(
    r: Rules,
    s: PlayState,
    f: Frame,
    effects: Seq<Effect>,
    events: Seq<Event>,
    k: int,
) -> (PlayState, Frame, Seq<Effect>, bool)
    decreases events.len() - k,
{
    if k < 0 || k >= events.len() {
        (s, f, effects, false)
    } else {
        let (s1, f1, e1, quit) = input_step(r, s, f, effects, events[k]);
        if quit {
            (s1, f1, e1, true)
        } else {
            inputs_from(r, s1, f1, e1, events, k + 1)
        }
    }
}

/// True if the lane is held, by a discrete input or by a continuous input out of its
/// neutral state.
pub open spec fn key_pressed_spec(s: PlayState, lane: Lane) -> bool {
    s.keymultiplicity[lane.0 as int] > 0 || !(s.joystate[lane.0 as int] is Neutral)
}

/// What the bombs among the objects from index `j` up to `end` come to, in order: a bomb in
/// a lane that is held ends the long note of the lane without a grade of its own, sounds and
/// is graded MISS with its damage. Instant death ends the play at once, which the last
/// component tells.
pub open spec fn bombed(
    r: Rules,
    s: PlayState,
    f: Frame,
    effects: Seq<Effect>,
    j: int,
    end: int,
) -> (PlayState, Frame, Seq<Effect>, bool)
    decreases end - j,
{
    if j >= end || j < 0 || j >= r.objs.len() {
        (s, f, effects, false)
    } else {
        match r.objs[j].data {
            ObjData::Bomb(lane, sref, damage) => if key_pressed_spec(s, lane) {
                let f1 = Frame { thru: f.thru.update(lane.0 as int, None), ..f };
                let e1 = with_sound(effects, sref);
                let s1 = missed(r, s, damage);
                if damage is InstantDeath {
                    (s1, f1, e1, true)
                } else {
                    bombed(r, s1, f1, e1, j + 1, end)
                }
            } else {
                bombed(r, s, f, effects, j + 1, end)
            },
            _ => bombed(r, s, f, effects, j + 1, end),
        }
    }
}

/// Whether the play goes on once the pointers of the tick are stored.
pub open spec fn going_on(r: Rules, s: PlayState) -> Verdict {
    if s.cur.index == r.objs.len() {
        if r.opts.is_autoplay_spec() {
            Verdict::ContinueWhilePlaying(SoundGroup::AllButBeep)
        } else {
            Verdict::ContinueWhilePlaying(SoundGroup::KeySounds)
        }
    } else if s.cur.loc.vpos < r.originoffset {
        Verdict::Stop
    } else {
        Verdict::Continue
    }
}

/// Where a tick at the timestamp `now` stands before it takes its events. In order: the play
/// speed eases towards its target; the grading line moves to the time of the tick and the
/// objects that it passes are activated; the objects that have escaped the grading area are
/// swept. The last component tells whether a BPM of zero ends the play at once, in which case
/// nothing is swept.
pub open spec fn arrived(r: Rules, s0: PlayState, now: u64) -> (PlayState, Frame, Seq<Effect>, bool) {
    let s1 = PlayState { now: now, ..eased(s0) };
    let cur = moved(r, s1, chart_time(r, now));
    let (s2, e2, zero) = if s1.reverse is Some {
        (s1, Seq::<Effect>::empty(), false)
    } else {
        activated(r, s1, Seq::<Effect>::empty(), s1.cur.start_spec(r.objs), cur.index as int)
    };
    let f2 = Frame { cur: cur, checked: s2.checked, thru: s2.thru };
    if zero {
        (s2, f2, e2, true)
    } else {
        let (s3, f3) = sweep(r, s2, f2);
        (s3, f3, e2, false)
    }
}

/// What a tick at the timestamp `now` with the given events comes to. In order: the tick
/// arrives at the time of the tick, as `arrived` tells; the events are processed; the bombs
/// that the grading line has passed go off; the pointers are stored. A tick that ends the
/// play at once stores none of them, but for instant death, which stores the end of the chart
/// as the grading line.
pub open spec fn tick_spec(r: Rules, s0: PlayState, now: u64, events: Seq<Event>) -> (
    PlayState,
    Verdict,
    Seq<Effect>,
) {
    let (s3, f3, e3, zero) = arrived(r, s0, now);
    if zero {
        (s3, Verdict::Stop, e3)
    } else {
        let (s4, f4, e4, quit) = inputs_from(r, s3, f3, e3, events, 0);
        if quit {
            (s4, Verdict::Quit, e4)
        } else {
            let (s5, f5, e5, dead) = if r.opts.is_autoplay_spec() {
                (s4, f4, e4, false)
            } else {
                bombed(r, s4, f4, e4, s0.cur.start_spec(r.objs), f4.cur.start_spec(r.objs))
            };
            if dead {
                (PlayState { cur: Pointer::end_spec(r.objs), ..s5 }, Verdict::Stop, e5)
            } else {
                let s6 = PlayState { cur: f5.cur, checked: f5.checked, thru: f5.thru, ..s5 };
                (s6, going_on(r, s6), e5)
            }
        }
    }
}

/// The pointers that a tick works on before it stores them.
pub struct Work {
    /// The grading line.
    pub cur: Pointer,
    /// The lower bound of the grading area.
    pub checked: Pointer,
    /// The long notes in progress, by lane.
    pub thru: Vec<Option<Pointer>>,
}

impl Work {
    /// The pointers as plain values.
    pub open spec fn view(&self) -> Frame {
        Frame { cur: self.cur, checked: self.checked, thru: self.thru@ }
    }
}

/// Returns a copy of the long notes in progress.
fn copy_thru(thru: &Vec<Option<Pointer>>) -> (r: Vec<Option<Pointer>>)
    ensures
        r@ == thru@,
{
    let n: usize = thru.len();
    let mut r: Vec<Option<Pointer>> = Vec::new();
    let mut i: usize = 0;
    while i < n
        invariant
            n == thru@.len(),
            0 <= i <= n,
            r@ == thru@.take(i as int),
        decreases n - i,
    {
        r.push(thru[i]);
        i += 1;
        assert(r@ =~= thru@.take(i as int));
    }
    assert(thru@.take(n as int) =~= thru@);
    r
}

/// Returns the difference of two coordinates, limited to what an `i64` can hold.
pub fn coord_diff(to: i64, from: i64) -> (d: i64)
    ensures
        d == diff(to, from),
{
    let d: i128 = to as i128 - from as i128;
    if d < i64::MIN as i128 {
        i64::MIN
    } else if d > i64::MAX as i128 {
        i64::MAX
    } else {
        d as i64
    }
}

/// Returns the distance in virtual time from `from` to `to`, scaled by the grade factor.
pub fn normalized(gradefactor: i64, from: i64, to: i64) -> (d: i64)
    ensures
        d == norm_dist(gradefactor, from, to),
{
    mul_div(coord_diff(to, from), gradefactor, UNIT)
}

/// Tells whether a normalized distance is within the grading area.
pub fn within_area(dist: i64) -> (r: bool)
    ensures
        r == in_area(dist),
{
    -BAD_CUTOFF < dist && dist < BAD_CUTOFF
}

impl Player {
    /// What a play does not change.
    pub open spec fn rules(&self) -> Rules {
        Rules {
            opts: self.opts,
            objs: self.timeline.objs@,
            initbpm: self.timeline.initbpm,
            nnotes: self.infos.nnotes,
            originoffset: self.infos.originoffset,
            keymap: self.keymap@,
            gradefactor: self.gradefactor,
            origin: self.origin,
            origintime: self.origintime,
        }
    }

    /// What a tick may change.
    pub open spec fn view(&self) -> PlayState {
        PlayState {
            playspeed: self.playspeed,
            targetspeed: self.targetspeed,
            bpm: self.bpm,
            now: self.now,
            cur: self.cur,
            checked: self.checked,
            reverse: self.reverse,
            tally: self.tally,
            nograding: self.nograding@,
            bga: self.bga@,
            thru: self.thru@,
            keymultiplicity: self.keymultiplicity@,
            joystate: self.joystate@,
        }
    }

    /// A player is well formed if its timeline is, if it has a flag for each object and a
    /// reference for each BGA layer, and a long note in progress, a number of inputs and a
    /// state of the axes for each lane.
    pub open spec fn wf(&self) -> bool {
        &&& self.timeline.wf()
        &&& self.nograding@.len() == self.timeline.objs@.len()
        &&& self.bga@.len() == NLAYERS
        &&& self.thru@.len() == NLANES
        &&& self.keymultiplicity@.len() == NLANES
        &&& self.joystate@.len() == NLANES
    }

    /// True if the two players differ at most in what a tick may change.
    pub open spec fn same_play(&self, other: &Player) -> bool {
        &&& self.rules() == other.rules()
        &&& self.meta == other.meta
        &&& self.timeline == other.timeline
        &&& self.keyspec == other.keyspec
        &&& self.keymap == other.keymap
        &&& self.infos == other.infos
        &&& self.duration == other.duration
        &&& self.survival == other.survival
    }

    /// Returns true if the specified lane is being pressed, either by keyboard, joystick
    /// buttons or axes.
    pub fn key_pressed(&self, lane: Lane) -> (r: bool)
        requires
            self.wf(),
            lane.0 < NLANES,
        ensures
            r == key_pressed_spec(self@, lane),
    {
        self.keymultiplicity[lane.0] > 0 || match self.joystate[lane.0] {
            InputState::Neutral => false,
            _ => true,
        }
    }

    /// Returns the play speed displayed. Can differ from the actual play speed
    /// (`self.playspeed`) when the play speed is changing.
    pub fn nominal_playspeed(&self) -> (speed: i64)
        ensures
            speed == nominal(self@),
    {
        match self.targetspeed {
            Some(t) => t,
            None => self.playspeed,
        }
    }

    /// Updates the score and associated statistics according to grading. `scoredelta` is
    /// a weight normalized to [0,1] that is calculated from the distance between the object
    /// and the input time, and `damage` is an optionally associated `Damage` value for bombs.
    /// Returns false when `Damage` resulted in the instant death.
    pub fn update_grade(&mut self, grade: Grade, scoredelta: i64, damage: Option<Damage>) -> (keepgoing:
        bool)
        requires
            0 <= scoredelta <= UNIT,
        ensures
            final(self)@ == (PlayState {
                tally: old(self)@.tally.graded(
                    grade,
                    scoredelta,
                    damage,
                    old(self).now,
                    old(self).infos.nnotes,
                ),
                ..old(self)@
            }),
            final(self).same_play(old(self)),
            final(self).wf() == old(self).wf(),
            keepgoing == !(damage == Some(Damage::InstantDeath)),
            final(self).tally.bestcombo >= final(self).tally.lastcombo,
            old(self).tally.gauge <= MAXGAUGE ==> final(self).tally.gauge <= MAXGAUGE,
    {
        self.tally.update_grade(grade, scoredelta, damage, self.now, self.infos.nnotes)
    }

    /// Same as `update_grade`, but the grade is calculated from the normalized difference
    /// between the object and input time in seconds. The normalized distance equals to
    /// the actual time difference when `gradefactor` is 1.0.
    pub fn update_grade_from_distance(&mut self, dist: i64)
        ensures
            final(self)@ == graded_at(old(self).rules(), old(self)@, dist),
            final(self).same_play(old(self)),
            final(self).wf() == old(self).wf(),
            final(self).tally.bestcombo >= final(self).tally.lastcombo,
            old(self).tally.gauge <= MAXGAUGE ==> final(self).tally.gauge <= MAXGAUGE,
    {
        self.tally.update_grade_from_distance(dist, self.now, self.infos.nnotes);
    }

    /// Same as `update_grade`, but with the predetermined damage value. Always results in MISS
    /// grade. Returns false when the damage resulted in the instant death.
    pub fn update_grade_from_damage(&mut self, damage: Damage) -> (keepgoing: bool)
        ensures
            final(self)@ == missed(old(self).rules(), old(self)@, damage),
            final(self).same_play(old(self)),
            final(self).wf() == old(self).wf(),
            keepgoing == !(damage is InstantDeath),
            final(self).tally.bestcombo >= final(self).tally.lastcombo,
            old(self).tally.gauge <= MAXGAUGE ==> final(self).tally.gauge <= MAXGAUGE,
    {
        self.tally.update_grade_from_damage(damage, self.now, self.infos.nnotes)
    }

    /// Same as `update_grade`, but always results in MISS grade with the standard damage value.
    pub fn update_grade_to_miss(&mut self)
        ensures
            final(self)@ == missed(
                old(self).rules(),
                old(self)@,
                Damage::GaugeDamage(crate::grade::MISS_DAMAGE),
            ),
            final(self).same_play(old(self)),
            final(self).wf() == old(self).wf(),
            final(self).tally.bestcombo >= final(self).tally.lastcombo,
            old(self).tally.gauge <= MAXGAUGE ==> final(self).tally.gauge <= MAXGAUGE,
    {
        self.tally.update_grade_to_miss(self.now, self.infos.nnotes);
    }

    /// Eases the play speed towards its target.
    fn ease(&mut self)
        ensures
            final(self)@ == eased(old(self)@),
            final(self).same_play(old(self)),
            final(self).wf() == old(self).wf(),
    {
        match self.targetspeed {
            Some(target) => {
                let delta: i128 = target as i128 - self.playspeed as i128;
                if -1000 < delta && delta < 1000 {
                    self.playspeed = target;
                    self.targetspeed = None;
                } else {
                    let step: i128 = if delta >= 0 {
                        delta / 10
                    } else {
                        -((-delta) / 10)
                    };
                    let next: i128 = self.playspeed as i128 + step;
                    self.playspeed = if next < i64::MIN as i128 {
                        i64::MIN
                    } else if next > i64::MAX as i128 {
                        i64::MAX
                    } else {
                        next as i64
                    };
                }
            },
            None => {},
        }
    }

    /// Returns the actual time of the chart at the timestamp `now`.
    fn time_at(&self, now: u64) -> (t: i64)
        ensures
            t == chart_time(self.rules(), now),
            coord_ok(t),
    {
        let elapsed: u64 = if now >= self.origintime {
            now - self.origintime
        } else {
            0
        };
        crate::pointer::clamp_to_coord(elapsed as i128 * 1000 + self.origin.loc.time as i128)
    }

    /// Returns the grading line at the actual time `curtime`.
    fn move_to(&self, curtime: i64) -> (cur: Pointer)
        requires
            self.wf(),
        ensures
            cur == moved(self.rules(), self@, curtime),
            cur.wf(&self.timeline),
    {
        match self.reverse {
            Some(rev) => {
                let back: i64 = self.bpm.sec_to_measure(coord_diff(curtime, rev.loc.time));
                let wide: i128 = rev.loc.pos as i128 + back as i128;
                let newpos: i64 = if wide < i64::MIN as i128 {
                    i64::MIN
                } else if wide > i64::MAX as i128 {
                    i64::MAX
                } else {
                    wide as i64
                };
                self.cur.find(
                    &self.timeline,
                    ObjAxis::ActualPos,
                    coord_diff(newpos, self.cur.loc.pos),
                )
            },
            None => self.cur.find(
                &self.timeline,
                ObjAxis::ActualTime,
                coord_diff(curtime, self.cur.loc.time),
            ),
        }
    }

    /// Activates the objects from index `from` up to `to`. Returns true if a BPM of zero ends
    /// the play.
    fn activate(&mut self, effects: &mut Vec<Effect>, from: usize, to: usize) -> (zero: bool)
        requires
            old(self).wf(),
        ensures
            (final(self)@, final(effects)@, zero) == activated(
                old(self).rules(),
                old(self)@,
                old(effects)@,
                from as int,
                to as int,
            ),
            final(self).same_play(old(self)),
            flags_kept(old(self)@.nograding, final(self)@.nograding),
            old(self).tally.sound() ==> final(self).tally.sound(),
            final(self).wf(),
    {
        let n: usize = self.timeline.objs.len();
        let autoplay = self.opts.is_autoplay();
        let mut j: usize = from;
        while j < to && j < n
            invariant
                self.wf(),
                self.same_play(old(self)),
                flags_kept(old(self)@.nograding, self@.nograding),
                old(self).tally.sound() ==> self.tally.sound(),
                n == self.timeline.objs@.len(),
                autoplay == self.opts.is_autoplay_spec(),
                from <= j,
                activated(self.rules(), self@, effects@, j as int, to as int) == activated(
                    old(self).rules(),
                    old(self)@,
                    old(effects)@,
                    from as int,
                    to as int,
                ),
            decreases n - j,
        {
            let data = self.timeline.objs[j].data;
            let loc = self.timeline.objs[j].loc;
            match data {
                ObjData::BGM(sref) => {
                    if sref.0 > 0 {
                        effects.push(Effect::Sound(sref, true));
                    }
                },
                ObjData::SetBGA(layer, bgaref) => {
                    self.bga.set(layer.index(), bgaref);
                },
                ObjData::SetBPM(newbpm) => {
                    self.bpm = newbpm;
                    if newbpm.0 == 0 {
                        return true;  // finish immediately
                    } else if newbpm.0 < 0 {
                        self.reverse = Some(Pointer { index: j, loc: loc });  // activate reverse motion
                    }
                },
                ObjData::Visible(_, sref) | ObjData::LNStart(_, sref) => {
                    if autoplay {
                        match sref {
                            Some(snd) => {
                                if snd.0 > 0 {
                                    effects.push(Effect::Sound(snd, false));
                                }
                            },
                            None => {},
                        }
                        self.update_grade_from_distance(0);
                    }
                },
                _ => {},
            }
            j += 1;
        }
        false
    }
}

/// `next_open` gives the first open object from `i` on.
pub proof fn lemma_next_open(
    objs: Seq<Obj>,
    nograding: Seq<bool>,
    filter: ObjFilter,
    from: int,
    i: int,
)
    requires
        0 <= i <= objs.len(),
    ensures
        i <= next_open(objs, nograding, filter, from, i) <= objs.len(),
        forall|j: int|
            i <= j < next_open(objs, nograding, filter, from, i) ==> !open_at(
                objs,
                nograding,
                filter,
                from,
                j,
            ),
        next_open(objs, nograding, filter, from, i) < objs.len() ==> open_at(
            objs,
            nograding,
            filter,
            from,
            next_open(objs, nograding, filter, from, i),
        ),
    decreases objs.len() - i,
{
    if i < objs.len() && !open_at(objs, nograding, filter, from, i) {
        lemma_next_open(objs, nograding, filter, from, i + 1);
    }
}

/// `prev_open` gives the last open object before `i`.
pub proof fn lemma_prev_open(
    objs: Seq<Obj>,
    nograding: Seq<bool>,
    filter: ObjFilter,
    from: int,
    i: int,
)
    requires
        0 <= i <= objs.len(),
    ensures
        -1 <= prev_open(objs, nograding, filter, from, i) < i,
        forall|j: int|
            prev_open(objs, nograding, filter, from, i) < j < i ==> !open_at(
                objs,
                nograding,
                filter,
                from,
                j,
            ),
        prev_open(objs, nograding, filter, from, i) >= 0 ==> open_at(
            objs,
            nograding,
            filter,
            from,
            prev_open(objs, nograding, filter, from, i),
        ),
    decreases i,
{
    if i > 0 && !open_at(objs, nograding, filter, from, i - 1) {
        lemma_prev_open(objs, nograding, filter, from, i - 1);
    }
}

impl Player {
    /// Tells whether the object of index `j` is open to a key going down.
    fn is_open(&self, filter: ObjFilter, from: usize, j: usize) -> (r: bool)
        requires
            self.wf(),
            j < self.timeline.objs@.len(),
        ensures
            r == open_at(self.timeline.objs@, self.nograding@, filter, from as int, j as int),
    {
        from <= j && !self.nograding[j] && filter.matches(&self.timeline.objs[j])
    }

    /// Returns the index of the first open object from `start` on, if there is one.
    fn first_open(&self, filter: ObjFilter, from: usize, start: usize) -> (r: Option<usize>)
        requires
            self.wf(),
            start <= self.timeline.objs@.len(),
        ensures
            match r {
                Some(j) => j < self.timeline.objs@.len() && j == next_open(
                    self.timeline.objs@,
                    self.nograding@,
                    filter,
                    from as int,
                    start as int,
                ),
                None => next_open(
                    self.timeline.objs@,
                    self.nograding@,
                    filter,
                    from as int,
                    start as int,
                ) == self.timeline.objs@.len(),
            },
    {
        let n: usize = self.timeline.objs.len();
        let mut i: usize = start;
        while i < n
            invariant
                self.wf(),
                n == self.timeline.objs@.len(),
                start <= i <= n,
                next_open(self.timeline.objs@, self.nograding@, filter, from as int, i as int)
                    == next_open(
                    self.timeline.objs@,
                    self.nograding@,
                    filter,
                    from as int,
                    start as int,
                ),
            decreases n - i,
        {
            if self.is_open(filter, from, i) {
                return Some(i);
            }
            i += 1;
        }
        None
    }

    /// Returns the index of the last open object before `start`, if there is one.
    fn last_open(&self, filter: ObjFilter, from: usize, start: usize) -> (r: Option<usize>)
        requires
            self.wf(),
            start <= self.timeline.objs@.len(),
        ensures
            match r {
                Some(j) => j < self.timeline.objs@.len() && j == prev_open(
                    self.timeline.objs@,
                    self.nograding@,
                    filter,
                    from as int,
                    start as int,
                ),
                None => prev_open(
                    self.timeline.objs@,
                    self.nograding@,
                    filter,
                    from as int,
                    start as int,
                ) == -1,
            },
    {
        let mut k: usize = start;
        while k > 0
            invariant
                self.wf(),
                0 <= k <= start <= self.timeline.objs@.len(),
                prev_open(self.timeline.objs@, self.nograding@, filter, from as int, k as int)
                    == prev_open(
                    self.timeline.objs@,
                    self.nograding@,
                    filter,
                    from as int,
                    start as int,
                ),
            decreases k,
        {
            if self.is_open(filter, from, k - 1) {
                return Some(k - 1);
            }
            k -= 1;
        }
        None
    }

    /// Returns the index of the open object nearest in virtual time to the grading line, if
    /// there is one.
    fn find_nearest_open(&self, filter: ObjFilter, from: usize, cur: &Pointer) -> (r: Option<usize>)
        requires
            self.wf(),
        ensures
            match r {
                Some(j) => j == nearest_open(
                    self.timeline.objs@,
                    self.nograding@,
                    filter,
                    from as int,
                    *cur,
                ) && j < self.timeline.objs@.len(),
                None => nearest_open(
                    self.timeline.objs@,
                    self.nograding@,
                    filter,
                    from as int,
                    *cur,
                ) == -1,
            },
    {
        let n: usize = self.timeline.objs.len();
        let start: usize = if cur.index <= n {
            cur.index
        } else {
            n
        };
        proof {
            lemma_next_open(self.timeline.objs@, self.nograding@, filter, from as int, start as int);
            lemma_prev_open(self.timeline.objs@, self.nograding@, filter, from as int, start as int);
        }
        let next = self.first_open(filter, from, start);
        let prev = self.last_open(filter, from, start);
        match (prev, next) {
            (None, _) => next,
            (Some(_), None) => prev,
            (Some(p), Some(q)) => {
                let here: i64 = cur.loc.vtime;
                let a: i64 = self.timeline.objs[p].loc.vtime;
                let b: i64 = self.timeline.objs[q].loc.vtime;
                let dp: i128 = if a >= here {
                    a as i128 - here as i128
                } else {
                    here as i128 - a as i128
                };
                let dq: i128 = if b >= here {
                    b as i128 - here as i128
                } else {
                    here as i128 - b as i128
                };
                if dp <= dq {
                    prev
                } else {
                    next
                }
            },
        }
    }

    /// Sweeps the objects that have escaped the grading area.
    fn sweep_escaped(&mut self, work: &mut Work)
        requires
            old(self).wf(),
            old(work).thru@.len() == NLANES,
        ensures
            (final(self)@, final(work)@) == sweep(old(self).rules(), old(self)@, old(work)@),
            final(self).same_play(old(self)),
            flags_kept(old(self)@.nograding, final(self)@.nograding),
            old(self).tally.sound() ==> final(self).tally.sound(),
            final(self).wf(),
            final(work).thru@.len() == NLANES,
            final(work).cur == old(work).cur,
    {
        let n: usize = self.timeline.objs.len();
        let from: usize = if work.checked.index <= n {
            work.checked.index
        } else {
            n
        };
        let to: usize = if work.cur.index <= n {
            work.cur.index
        } else {
            n
        };
        if self.opts.is_autoplay() || from > to {
            return ;
        }
        let mut j: usize = from;
        while j < to
            invariant
                self.wf(),
                self.same_play(old(self)),
                flags_kept(old(self)@.nograding, self@.nograding),
                old(self).tally.sound() ==> self.tally.sound(),
                work.thru@.len() == NLANES,
                work.cur == old(work).cur,
                n == self.timeline.objs@.len(),
                from <= j <= to <= n,
                from == old(work).checked.start_spec(old(self).timeline.objs@),
                to == old(work).cur.start_spec(old(self).timeline.objs@),
                !old(self).opts.is_autoplay_spec(),
                swept(self.rules(), self@, work@, j as int, to as int) == swept(
                    old(self).rules(),
                    old(self)@,
                    old(work)@,
                    from as int,
                    to as int,
                ),
            decreases to - j,
        {
            let obj = self.timeline.objs[j];
            let dist: i64 = normalized(self.gradefactor, obj.loc.vtime, work.cur.loc.vtime);
            if dist < BAD_CUTOFF {
                work.checked = Pointer { index: j, loc: obj.loc };
                return ;
            }
            if !self.nograding[j] {
                let hit: Option<Lane> = match obj.data {
                    ObjData::Visible(lane, _) => Some(lane),
                    ObjData::LNStart(lane, _) => Some(lane),
                    ObjData::LNDone(lane, _) => if work.thru[lane.0].is_some() {
                        Some(lane)
                    } else {
                        None
                    },
                    _ => None,
                };
                match hit {
                    Some(lane) => {
                        self.update_grade_to_miss();
                        work.thru.set(lane.0, None);
                    },
                    None => {},
                }
            }
            j += 1;
        }
        work.checked = work.cur;
    }

    /// Handles the key of a lane going down.
    fn press(&mut self, work: &mut Work, effects: &mut Vec<Effect>, lane: Lane)
        requires
            old(self).wf(),
            old(work).thru@.len() == NLANES,
            lane.0 < NLANES,
        ensures
            (final(self)@, final(work)@, final(effects)@) == pressed(
                old(self).rules(),
                old(self)@,
                old(work)@,
                old(effects)@,
                lane,
            ),
            final(self).same_play(old(self)),
            flags_kept(old(self)@.nograding, final(self)@.nograding),
            old(self).tally.sound() ==> final(self).tally.sound(),
            final(self).wf(),
            final(work).thru@.len() == NLANES,
            final(work).cur == old(work).cur,
    {
        // plays the closest key sound
        let soundable = ObjFilter { class: ObjClass::Soundable, lane: Some(lane) };
        match self.find_nearest_open(soundable, 0, &work.cur) {
            Some(j) => {
                let snd: Option<SoundRef> = match self.timeline.objs[j].data {
                    ObjData::Visible(_, snd) => snd,
                    ObjData::Invisible(_, snd) => snd,
                    ObjData::LNStart(_, snd) => snd,
                    ObjData::LNDone(_, snd) => snd,
                    ObjData::Bomb(_, snd, _) => snd,
                    _ => None,
                };
                match snd {
                    Some(sref) => {
                        effects.push(Effect::Sound(sref, false));
                    },
                    None => {},
                }
            },
            None => {},
        }
        // tries to grade the closest gradable object in the grading area
        let gradable = ObjFilter { class: ObjClass::Gradable, lane: Some(lane) };
        match self.find_nearest_open(gradable, work.checked.index, &work.cur) {
            Some(j) => {
                let obj = self.timeline.objs[j];
                let dist: i64 = normalized(self.gradefactor, work.cur.loc.vtime, obj.loc.vtime);
                if !obj.is_lndone() && within_area(dist) {
                    match obj.data {
                        ObjData::LNStart(..) => {
                            work.thru.set(lane.0, Some(Pointer { index: j, loc: obj.loc }));
                        },
                        _ => {},
                    }
                    self.nograding.set(j, true);
                    self.update_grade_from_distance(dist);
                }
            },
            None => {},
        }
    }

    /// Handles the key of a lane going up.
    fn unpress(&mut self, work: &mut Work, lane: Lane)
        requires
            old(self).wf(),
            old(work).thru@.len() == NLANES,
            lane.0 < NLANES,
        ensures
            (final(self)@, final(work)@) == unpressed(
                old(self).rules(),
                old(self)@,
                old(work)@,
                lane,
            ),
            final(self).same_play(old(self)),
            flags_kept(old(self)@.nograding, final(self)@.nograding),
            old(self).tally.sound() ==> final(self).tally.sound(),
            final(self).wf(),
            final(work).thru@.len() == NLANES,
            final(work).cur == old(work).cur,
    {
        // if LN grading is in progress and it is not within the threshold then
        // MISS grade is issued
        let total: usize = self.timeline.objs.len();
        match work.thru[lane.0] {
            Some(start) => {
                let lndone = ObjFilter { class: ObjClass::LNDone, lane: Some(lane) };
                proof {
                    crate::pointer::lemma_next_of(
                        self.timeline.objs@,
                        lndone,
                        start.start_spec(self.timeline.objs@),
                    );
                }
                let clean = match start.find_next_of_type(&self.timeline, lndone) {
                    Some(p) => {
                        let dist: i64 = normalized(
                            self.gradefactor,
                            work.cur.loc.vtime,
                            p.loc.vtime,
                        );
                        if within_area(dist) {
                            Some(p.index)
                        } else {
                            None
                        }
                    },
                    None => None,
                };
                let ghost nj = crate::pointer::next_of(
                    self.timeline.objs@,
                    lndone_in(lane),
                    start.start_spec(self.timeline.objs@),
                );
                let ghost s0 = self@;
                let ghost f0 = work@;
                match clean {
                    Some(j) => {
                        assert(nj < total);
                        assert(j == nj);
                        self.nograding.set(j, true);
                        assert(self@ == (PlayState { nograding: s0.nograding.update(nj, true), ..s0 }));
                    },
                    None => {
                        assert(!(nj < self.timeline.objs@.len() && in_area(
                            norm_dist(
                                self.gradefactor,
                                work.cur.loc.vtime,
                                self.timeline.objs@[nj].loc.vtime,
                            ),
                        )));
                        self.update_grade_to_miss();
                    },
                }
                work.thru.set(lane.0, None);
                assert(work@ == (Frame { thru: f0.thru.update(lane.0 as int, None), ..f0 }));
            },
            None => {},
        }
    }
}

impl Player {
    /// Takes note of an input that may let go of the lane. Returns true if it does.
    pub fn release(&mut self, lane: Lane, continuous: bool, state: InputState) -> (r: bool)
        requires
            old(self).wf(),
            lane.0 < NLANES,
        ensures
            r == lets_go(old(self)@, lane, continuous, state),
            final(self)@ == released(old(self)@, lane, continuous, state),
            final(self).same_play(old(self)),
            flags_kept(old(self)@.nograding, final(self)@.nograding),
            old(self).tally.sound() ==> final(self).tally.sound(),
            final(self).wf(),
            final(self).keymultiplicity@[lane.0 as int] <= old(self).keymultiplicity@[lane.0 as int],
    {
        let neutral = match state {
            InputState::Neutral => true,
            _ => false,
        };
        if continuous {
            if neutral || self.joystate[lane.0] != state {
                self.joystate.set(lane.0, state);
                true
            } else {
                false
            }
        } else if neutral {
            let held: usize = self.keymultiplicity[lane.0];
            if held > 0 {
                self.keymultiplicity.set(lane.0, held - 1);
            }
            held <= 1
        } else {
            false
        }
    }

    /// Takes note of an input that may take hold of the lane. Returns true if it does.
    pub fn hold(&mut self, lane: Lane, continuous: bool, state: InputState) -> (r: bool)
        requires
            old(self).wf(),
            lane.0 < NLANES,
        ensures
            r == takes_hold(old(self)@, lane, continuous, state),
            final(self)@ == held(old(self)@, lane, continuous, state),
            final(self).same_play(old(self)),
            flags_kept(old(self)@.nograding, final(self)@.nograding),
            old(self).tally.sound() ==> final(self).tally.sound(),
            final(self).wf(),
    {
        match state {
            InputState::Neutral => false,
            _ => {
                if continuous {
                    self.joystate.set(lane.0, state);
                    true
                } else {
                    let held: usize = self.keymultiplicity[lane.0];
                    self.keymultiplicity.set(lane.0, crate::grade::bump_count(held));
                    held == 0
                }
            },
        }
    }

    /// Handles one event. Returns true if it asks to quit.
    fn handle_event(&mut self, work: &mut Work, effects: &mut Vec<Effect>, event: Event) -> (quit:
        bool)
        requires
            old(self).wf(),
            old(work).thru@.len() == NLANES,
        ensures
            (final(self)@, final(work)@, final(effects)@, quit) == input_step(
                old(self).rules(),
                old(self)@,
                old(work)@,
                old(effects)@,
                event,
            ),
            final(self).same_play(old(self)),
            flags_kept(old(self)@.nograding, final(self)@.nograding),
            old(self).tally.sound() ==> final(self).tally.sound(),
            final(self).wf(),
            final(work).thru@.len() == NLANES,
            final(work).cur == old(work).cur,
    {
        // map to the virtual input. results in `vkey` (virtual key), `state` (input state)
        // and `continuous` (true if the input is not discrete and `Negative` input state
        // matters).
        let (key, state) = match Input::from_event(event) {
            Some((Input::Quit, _)) => {
                return true;
            },
            Some(key_and_state) => key_and_state,
            None => {
                return false;
            },
        };
        let vkey = match self.keymap.find(&key) {
            Some(vkey) => vkey,
            None => {
                return false;
            },
        };
        let continuous = key.is_continuous();
        if self.opts.is_exclusive() {
            return false;
        }
        let neutral = match state {
            InputState::Neutral => true,
            _ => false,
        };
        match vkey {
            VirtualInput::SpeedDown => {
                if !neutral {
                    match next_speed_mark(self.nominal_playspeed()) {
                        Some(newspeed) => {
                            self.targetspeed = Some(newspeed);
                            effects.push(Effect::Beep);
                        },
                        None => {},
                    }
                }
            },
            VirtualInput::SpeedUp => {
                if !neutral {
                    match previous_speed_mark(self.nominal_playspeed()) {
                        Some(newspeed) => {
                            self.targetspeed = Some(newspeed);
                            effects.push(Effect::Beep);
                        },
                        None => {},
                    }
                }
            },
            VirtualInput::Lane(lane) => {
                if !self.opts.is_autoplay() && lane.0 < NLANES {
                    if self.release(lane, continuous, state) {
                        self.unpress(work, lane);
                    }
                    if self.hold(lane, continuous, state) {
                        self.press(work, effects, lane);
                    }
                }
            },
        }
        false
    }

    /// Handles the events in order. Returns true if one of them asks to quit, which ends the
    /// handling.
    fn handle_events(&mut self, work: &mut Work, effects: &mut Vec<Effect>, events: &Vec<Event>) -> (quit:
        bool)
        requires
            old(self).wf(),
            old(work).thru@.len() == NLANES,
        ensures
            (final(self)@, final(work)@, final(effects)@, quit) == inputs_from(
                old(self).rules(),
                old(self)@,
                old(work)@,
                old(effects)@,
                events@,
                0,
            ),
            final(self).same_play(old(self)),
            flags_kept(old(self)@.nograding, final(self)@.nograding),
            old(self).tally.sound() ==> final(self).tally.sound(),
            final(self).wf(),
            final(work).thru@.len() == NLANES,
            final(work).cur == old(work).cur,
    {
        let n: usize = events.len();
        let mut k: usize = 0;
        while k < n
            invariant
                self.wf(),
                self.same_play(old(self)),
                flags_kept(old(self)@.nograding, self@.nograding),
                old(self).tally.sound() ==> self.tally.sound(),
                work.thru@.len() == NLANES,
                work.cur == old(work).cur,
                n == events@.len(),
                0 <= k <= n,
                inputs_from(self.rules(), self@, work@, effects@, events@, k as int)
                    == inputs_from(
                    old(self).rules(),
                    old(self)@,
                    old(work)@,
                    old(effects)@,
                    events@,
                    0,
                ),
            decreases n - k,
        {
            if self.handle_event(work, effects, events[k]) {
                return true;
            }
            k += 1;
        }
        false
    }

    /// Lets the bombs among the objects from index `from` up to `to` go off. Returns true if
    /// one of them is instant death.
    fn bombs(&mut self, work: &mut Work, effects: &mut Vec<Effect>, from: usize, to: usize) -> (dead:
        bool)
        requires
            old(self).wf(),
            old(work).thru@.len() == NLANES,
        ensures
            (final(self)@, final(work)@, final(effects)@, dead) == bombed(
                old(self).rules(),
                old(self)@,
                old(work)@,
                old(effects)@,
                from as int,
                to as int,
            ),
            final(self).same_play(old(self)),
            flags_kept(old(self)@.nograding, final(self)@.nograding),
            old(self).tally.sound() ==> final(self).tally.sound(),
            final(self).wf(),
            final(work).thru@.len() == NLANES,
            final(work).cur == old(work).cur,
            final(work).checked == old(work).checked,
    {
        let n: usize = self.timeline.objs.len();
        let mut j: usize = from;
        while j < to && j < n
            invariant
                self.wf(),
                self.same_play(old(self)),
                flags_kept(old(self)@.nograding, self@.nograding),
                old(self).tally.sound() ==> self.tally.sound(),
                work.thru@.len() == NLANES,
                work.cur == old(work).cur,
                work.checked == old(work).checked,
                n == self.timeline.objs@.len(),
                from <= j,
                bombed(self.rules(), self@, work@, effects@, j as int, to as int) == bombed(
                    old(self).rules(),
                    old(self)@,
                    old(work)@,
                    old(effects)@,
                    from as int,
                    to as int,
                ),
            decreases n - j,
        {
            match self.timeline.objs[j].data {
                ObjData::Bomb(lane, sref, damage) => {
                    if self.key_pressed(lane) {
                        // ongoing long note is not graded twice
                        work.thru.set(lane.0, None);
                        match sref {
                            Some(snd) => {
                                effects.push(Effect::Sound(snd, false));
                            },
                            None => {},
                        }
                        if !self.update_grade_from_damage(damage) {
                            // instant death
                            return true;
                        }
                    }
                },
                _ => {},
            }
            j += 1;
        }
        false
    }

    /// Updates the player state for the frame at the timestamp `now`, in milliseconds, with
    /// the events of the frame in the order of their arrival. Returns whether the caller
    /// should keep calling `tick`, and the sounds for it to play.
    pub fn tick(&mut self, now: u64, events: &Vec<Event>) -> (r: TickResult)
        requires
            old(self).wf(),
        ensures
            (final(self)@, r.verdict, r.effects@) == tick_spec(
                old(self).rules(),
                old(self)@,
                now,
                events@,
            ),
            final(self).same_play(old(self)),
            flags_kept(old(self)@.nograding, final(self)@.nograding),
            old(self).tally.sound() ==> final(self).tally.sound(),
            final(self).wf(),
    {
        let mut effects: Vec<Effect> = Vec::new();
        let n: usize = self.timeline.objs.len();
        let prev: usize = if self.cur.index <= n {
            self.cur.index
        } else {
            n
        };
        // smoothly change the play speed
        self.ease();
        self.now = now;
        let curtime: i64 = self.time_at(now);
        let cur = self.move_to(curtime);
        if self.reverse.is_none() {
            // apply object-like effects while advancing the grading line
            if self.activate(&mut effects, prev, cur.index) {
                return TickResult { verdict: Verdict::Stop, effects: effects };
            }
        }
        let mut work = Work { cur: cur, checked: self.checked, thru: copy_thru(&self.thru) };
        // grade objects that have escaped the grading area
        self.sweep_escaped(&mut work);
        // process inputs
        if self.handle_events(&mut work, &mut effects, events) {
            return TickResult { verdict: Verdict::Quit, effects: effects };
        }
        // process bombs
        if !self.opts.is_autoplay() {
            let to: usize = if work.cur.index <= n {
                work.cur.index
            } else {
                n
            };
            if self.bombs(&mut work, &mut effects, prev, to) {
                self.cur = work.cur.find_end(&self.timeline);
                return TickResult { verdict: Verdict::Stop, effects: effects };
            }
        }
        self.cur = work.cur;
        self.checked = work.checked;
        self.thru = work.thru;
        // determines if we should keep playing
        let verdict = if self.cur.index == n {
            if self.opts.is_autoplay() {
                Verdict::ContinueWhilePlaying(SoundGroup::AllButBeep)
            } else {
                Verdict::ContinueWhilePlaying(SoundGroup::KeySounds)
            }
        } else if self.cur.loc.vpos < self.infos.originoffset {
            Verdict::Stop  // special casing the negative BPM
        } else {
            Verdict::Continue
        };
        TickResult { verdict: verdict, effects: effects }
    }
}

/// The BGA state at the beginning of a play: the layers are blank but for the one shown
/// after a MISS grade, which shows the image of number zero.
pub open spec fn initial_bga() -> Seq<BGARef> {
    seq![BGARef::BlankBGA, BGARef::BlankBGA, BGARef::BlankBGA, BGARef::ImageBGA(ImageRef(0))]
}

/// Returns the initial BGA state. Note that merely setting a particular layer doesn't start
/// the movie playback.
pub fn initial_bga_state() -> (bga: Vec<BGARef>)
    ensures
        bga@ == initial_bga(),
{
    let mut bga: Vec<BGARef> = Vec::new();
    bga.push(BGARef::BlankBGA);
    bga.push(BGARef::BlankBGA);
    bga.push(BGARef::BlankBGA);
    bga.push(BGARef::ImageBGA(ImageRef(0)));
    assert(bga@ =~= initial_bga());
    bga
}

/// The scale factor of the grading area for a gauge difficulty: 1.5 for the difficulty 0,
/// a quarter less for each step up to 5.
pub open spec fn gradefactor_spec(rank: i32) -> i64 {
    if rank < 5 {
        (1_500_000 - rank * 250_000) as i64
    } else {
        250_000
    }
}

/// Returns `n` copies of a value.
pub(crate) fn filled<T: Copy>(n: usize, value: T) -> (v: Vec<T>)
    ensures
        v@ == Seq::new(n as nat, |i: int| value),
{
    let mut v: Vec<T> = Vec::new();
    let mut i: usize = 0;
    while i < n
        invariant
            0 <= i <= n,
            v@ == Seq::new(i as nat, |k: int| value),
        decreases n - i,
    {
        v.push(value);
        i += 1;
        assert(v@ =~= Seq::new(i as nat, |k: int| value));
    }
    v
}

impl Player {
    /// Creates a new player object at the timestamp `now`, in milliseconds. The player object
    /// owns other related structures, including the options, the chart, key specification and
    /// input mapping. `sound_lengths` holds the length of each sound resource in seconds.
    /// Every pointer is set to the origin of the game play; the first `tick` does the initial
    /// calculation.
    pub fn new(
        opts: Options,
        bms: Bms,
        infos: TimelineInfo,
        keyspec: KeySpec,
        keymap: KeyMap,
        now: u64,
        sound_lengths: &Vec<i64>,
    ) -> (player: Player)
        requires
            bms.timeline.wf(),
        ensures
            player.wf(),
            player.opts == opts,
            player.meta == bms.meta,
            player.timeline == bms.timeline,
            player.infos == infos,
            player.keyspec == keyspec,
            player.keymap == keymap,
            player.origin == Pointer::at_spec(
                bms.timeline.objs@,
                bms.timeline.initbpm,
                ObjAxis::VirtualPos,
                infos.originoffset,
            ),
            player.duration == clamp_i64(
                crate::timeline::latest_end(
                    bms.timeline.objs@,
                    sound_lengths@,
                    bms.timeline.objs@.len() as int,
                ) - player.origin.loc.time,
            ),
            player.gradefactor == gradefactor_spec(bms.meta.rank),
            player.survival == 150,
            player.origintime == now,
            player@ == (PlayState {
                playspeed: opts.playspeed,
                targetspeed: None,
                bpm: bms.timeline.initbpm,
                now: now,
                cur: player.origin,
                checked: player.origin,
                reverse: None,
                tally: Tally::initial(),
                nograding: Seq::new(bms.timeline.objs@.len(), |i: int| false),
                bga: initial_bga(),
                thru: Seq::new(NLANES as nat, |i: int| None::<Pointer>),
                keymultiplicity: Seq::new(NLANES as nat, |i: int| 0usize),
                joystate: Seq::new(NLANES as nat, |i: int| InputState::Neutral),
            }),
    {
        // we no longer need the full chart structure.
        let Bms { meta, timeline, bmspath } = bms;
        let capped: i64 = if meta.rank < 5 {
            meta.rank as i64
        } else {
            5
        };
        let gradefactor: i64 = 1_500_000 - capped * 250_000;
        let survival: i64 = MAXGAUGE * 293 / 1000;
        let initbpm = timeline.initbpm;
        let nobjs: usize = timeline.objs.len();
        // set all pointers to the origin and let the `tick` do the initial calculation
        let origin = timeline.pointer(ObjAxis::VirtualPos, infos.originoffset);
        let duration: i64 = timeline.duration(infos.originoffset, sound_lengths);
        Player {
            opts: opts,
            meta: meta,
            timeline: timeline,
            infos: infos,
            duration: duration,
            keyspec: keyspec,
            keymap: keymap,
            nograding: filled(nobjs, false),
            bga: initial_bga_state(),
            playspeed: opts.playspeed,
            targetspeed: None,
            bpm: initbpm,
            now: now,
            origintime: now,
            origin: origin,
            cur: origin,
            checked: origin,
            thru: filled(NLANES, None),
            reverse: None,
            gradefactor: gradefactor,
            tally: Tally::new(),
            survival: survival,
            keymultiplicity: filled(NLANES, 0),
            joystate: filled(NLANES, InputState::Neutral),
        }
    }
}

/// No input brings the number of inputs that hold a lane below none: an input that lets go
/// of a lane that nothing holds leaves the number at none, and any other lowers it by one
/// at most.
pub proof fn lemma_multiplicity_never_underflows(
    s: PlayState,
    lane: Lane,
    continuous: bool,
    state: InputState,
)
    requires
        lane.0 < s.keymultiplicity.len(),
    ensures
        s.keymultiplicity[lane.0 as int] == 0 ==> released(
            s,
            lane,
            continuous,
            state,
        ).keymultiplicity[lane.0 as int] == 0,
        released(s, lane, continuous, state).keymultiplicity[lane.0 as int] >= 0,
        released(s, lane, continuous, state).keymultiplicity[lane.0 as int]
            >= s.keymultiplicity[lane.0 as int] - 1,
        released(s, lane, continuous, state).keymultiplicity.len() == s.keymultiplicity.len(),
{
}

/// A lane that two discrete inputs hold is still held when one of them lets go of it.
pub proof fn lemma_shared_lane_stays_held(s: PlayState, lane: Lane)
    requires
        lane.0 < s.keymultiplicity.len(),
        s.keymultiplicity[lane.0 as int] >= 2,
    ensures
        !lets_go(s, lane, false, InputState::Neutral),
        key_pressed_spec(released(s, lane, false, InputState::Neutral), lane),
{
}

/// A key going down resolves no object twice: the object that it grades was not resolved
/// before and is resolved after, and every object that was resolved stays so.
pub proof fn lemma_press_never_regrades(
    r: Rules,
    s: PlayState,
    f: Frame,
    effects: Seq<Effect>,
    lane: Lane,
)
    requires
        s.nograding.len() == r.objs.len(),
    ensures
        ({
            let j = nearest_open(r.objs, s.nograding, gradable_in(lane), f.checked.index as int, f.cur);
            let after = pressed(r, s, f, effects, lane).0;
            &&& after.nograding.len() == s.nograding.len()
            &&& forall|i: int| 0 <= i < s.nograding.len() && s.nograding[i] ==> after.nograding[i]
            &&& after.tally != s.tally ==> j >= 0 && !s.nograding[j] && after.nograding[j] && !(
            r.objs[j].data is LNDone) && after.tally == s.tally.graded_by_distance(
                norm_dist(r.gradefactor, f.cur.loc.vtime, r.objs[j].loc.vtime),
                s.now,
                r.nnotes,
            )
            &&& forall|i: int|
                0 <= i < s.nograding.len() && i != j ==> after.nograding[i] == s.nograding[i]
        }),
{
    let start = f.cur.start_spec(r.objs);
    lemma_next_open(r.objs, s.nograding, gradable_in(lane), f.checked.index as int, start);
    lemma_prev_open(r.objs, s.nograding, gradable_in(lane), f.checked.index as int, start);
}

/// An object that is resolved is never what a key going down is held against, whatever the
/// condition, the lower bound and the grading line: no later key grades it again.
pub proof fn lemma_resolved_is_not_found(
    objs: Seq<Obj>,
    nograding: Seq<bool>,
    filter: ObjFilter,
    from: int,
    cur: Pointer,
    j: int,
)
    requires
        0 <= j < nograding.len(),
        nograding[j],
    ensures
        nearest_open(objs, nograding, filter, from, cur) != j,
{
    let start = cur.start_spec(objs);
    lemma_next_open(objs, nograding, filter, from, start);
    lemma_prev_open(objs, nograding, filter, from, start);
}

/// A key going down that finds a note within the grading area grades it once: the note was
/// not resolved and now is, no other flag changes, the counters take one grade by the
/// distance of the note, and the start of a long note becomes the long note in progress of
/// the lane. No later key finds the note again.
pub proof fn lemma_press_grades_once(
    r: Rules,
    s: PlayState,
    f: Frame,
    effects: Seq<Effect>,
    lane: Lane,
)
    requires
        s.nograding.len() == r.objs.len(),
        ({
            let j = nearest_open(r.objs, s.nograding, gradable_in(lane), f.checked.index as int, f.cur);
            &&& j >= 0
            &&& !(r.objs[j].data is LNDone)
            &&& in_area(norm_dist(r.gradefactor, f.cur.loc.vtime, r.objs[j].loc.vtime))
        }),
    ensures
        ({
            let j = nearest_open(r.objs, s.nograding, gradable_in(lane), f.checked.index as int, f.cur);
            let dist = norm_dist(r.gradefactor, f.cur.loc.vtime, r.objs[j].loc.vtime);
            let (after, frame, _) = pressed(r, s, f, effects, lane);
            &&& 0 <= j < r.objs.len()
            &&& !s.nograding[j]
            &&& after.nograding == s.nograding.update(j, true)
            &&& after.tally == s.tally.graded_by_distance(dist, s.now, r.nnotes)
            &&& after.tally.lastgrade == Some((Grade::of_distance(dist as int), s.now))
            &&& after.tally.count_spec(Grade::of_distance(dist as int)) == crate::grade::bump(
                s.tally.count_spec(Grade::of_distance(dist as int)),
            )
            &&& forall|g: Grade|
                g != Grade::of_distance(dist as int) ==> after.tally.count_spec(g)
                    == s.tally.count_spec(g)
            &&& r.objs[j].data is LNStart && lane.0 < f.thru.len() ==> frame.thru[lane.0 as int]
                == Some(ptr_at(r.objs, j))
            &&& forall|filter: ObjFilter, from: int, cur: Pointer| #[trigger]
                nearest_open(r.objs, after.nograding, filter, from, cur) != j
        }),
{
    let start = f.cur.start_spec(r.objs);
    lemma_next_open(r.objs, s.nograding, gradable_in(lane), f.checked.index as int, start);
    lemma_prev_open(r.objs, s.nograding, gradable_in(lane), f.checked.index as int, start);
    let j = nearest_open(r.objs, s.nograding, gradable_in(lane), f.checked.index as int, f.cur);
    let after = pressed(r, s, f, effects, lane).0;
    assert forall|filter: ObjFilter, from: int, cur: Pointer| #[trigger]
        nearest_open(r.objs, after.nograding, filter, from, cur) != j by {
        lemma_resolved_is_not_found(r.objs, after.nograding, filter, from, cur, j);
    }
}

/// The sweep moves neither the grading line nor the point of reversal, and changes no flag
/// and no input of a lane.
proof fn lemma_sweep_keeps(r: Rules, s: PlayState, f: Frame, j: int, end: int)
    ensures
        swept(r, s, f, j, end).1.cur == f.cur,
        swept(r, s, f, j, end).0.cur == s.cur,
        swept(r, s, f, j, end).0.reverse == s.reverse,
        swept(r, s, f, j, end).0.nograding == s.nograding,
        swept(r, s, f, j, end).0.now == s.now,
        swept(r, s, f, j, end).0.keymultiplicity == s.keymultiplicity,
    decreases end - j,
{
    if j >= end || j < 0 || j >= r.objs.len() {
    } else if !escaped(r, f.cur, j) {
    } else if missable(r, s, f.thru, j) {
        lemma_sweep_keeps(
            r,
            missed(r, s, Damage::GaugeDamage(crate::grade::MISS_DAMAGE)),
            Frame { thru: f.thru.update(r.objs[j].data.lane_spec().unwrap().0 as int, None), ..f },
            j + 1,
            end,
        );
    } else {
        lemma_sweep_keeps(r, s, f, j + 1, end);
    }
}

/// The activation of objects moves neither the grading line nor the time of the tick, and
/// changes no flag, no long note in progress and no input of a lane.
proof fn lemma_activation_keeps(r: Rules, s: PlayState, effects: Seq<Effect>, j: int, end: int)
    ensures
        activated(r, s, effects, j, end).0.cur == s.cur,
        activated(r, s, effects, j, end).0.checked == s.checked,
        activated(r, s, effects, j, end).0.now == s.now,
        activated(r, s, effects, j, end).0.nograding == s.nograding,
        activated(r, s, effects, j, end).0.thru == s.thru,
        activated(r, s, effects, j, end).0.keymultiplicity == s.keymultiplicity,
    decreases end - j,
{
    if j >= end || j < 0 || j >= r.objs.len() {
    } else {
        match r.objs[j].data {
            ObjData::BGM(sref) => {
                lemma_activation_keeps(r, s, with_nonzero(effects, sref, true), j + 1, end);
            },
            ObjData::SetBGA(layer, bgaref) => {
                lemma_activation_keeps(
                    r,
                    PlayState { bga: s.bga.update(layer.index_spec(), bgaref), ..s },
                    effects,
                    j + 1,
                    end,
                );
            },
            ObjData::SetBPM(newbpm) => if newbpm.0 == 0 {
            } else if newbpm.0 < 0 {
                lemma_activation_keeps(
                    r,
                    PlayState { bpm: newbpm, reverse: Some(ptr_at(r.objs, j)), ..s },
                    effects,
                    j + 1,
                    end,
                );
            } else {
                lemma_activation_keeps(r, PlayState { bpm: newbpm, ..s }, effects, j + 1, end);
            },
            ObjData::Visible(_, sref) => if r.opts.is_autoplay_spec() {
                lemma_activation_keeps(
                    r,
                    graded_at(r, s, 0),
                    match sref {
                        Some(snd) => with_nonzero(effects, snd, false),
                        None => effects,
                    },
                    j + 1,
                    end,
                );
            } else {
                lemma_activation_keeps(r, s, effects, j + 1, end);
            },
            ObjData::LNStart(_, sref) => if r.opts.is_autoplay_spec() {
                lemma_activation_keeps(
                    r,
                    graded_at(r, s, 0),
                    match sref {
                        Some(snd) => with_nonzero(effects, snd, false),
                        None => effects,
                    },
                    j + 1,
                    end,
                );
            } else {
                lemma_activation_keeps(r, s, effects, j + 1, end);
            },
            _ => {
                lemma_activation_keeps(r, s, effects, j + 1, end);
            },
        }
    }
}

/// Before a tick takes its events it changes no flag and no input of a lane; the time is
/// that of the tick.
proof fn lemma_arrival_keeps(r: Rules, s: PlayState, now: u64)
    ensures
        arrived(r, s, now).0.now == now,
        arrived(r, s, now).0.nograding == s.nograding,
        arrived(r, s, now).0.keymultiplicity == s.keymultiplicity,
{
    let s1 = PlayState { now: now, ..eased(s) };
    let cur = moved(r, s1, chart_time(r, now));
    lemma_activation_keeps(r, s1, Seq::<Effect>::empty(), s1.cur.start_spec(r.objs), cur.index as int);
    let (s2, e2, zero) = if s1.reverse is Some {
        (s1, Seq::<Effect>::empty(), false)
    } else {
        activated(r, s1, Seq::<Effect>::empty(), s1.cur.start_spec(r.objs), cur.index as int)
    };
    let f2 = Frame { cur: cur, checked: s2.checked, thru: s2.thru };
    lemma_sweep_keeps(r, s2, f2, f2.checked.start_spec(r.objs), f2.cur.start_spec(r.objs));
}

/// The bombs move neither the grading line stored nor the one of the tick, nor the point of
/// reversal, and change no flag.
proof fn lemma_bombs_keep(r: Rules, s: PlayState, f: Frame, effects: Seq<Effect>, j: int, end: int)
    ensures
        bombed(r, s, f, effects, j, end).1.cur == f.cur,
        bombed(r, s, f, effects, j, end).0.cur == s.cur,
        bombed(r, s, f, effects, j, end).0.reverse == s.reverse,
        bombed(r, s, f, effects, j, end).0.nograding == s.nograding,
    decreases end - j,
{
    if j >= end || j < 0 || j >= r.objs.len() {
    } else {
        match r.objs[j].data {
            ObjData::Bomb(lane, sref, damage) => if key_pressed_spec(s, lane) {
                if !(damage is InstantDeath) {
                    lemma_bombs_keep(
                        r,
                        missed(r, s, damage),
                        Frame { thru: f.thru.update(lane.0 as int, None), ..f },
                        with_sound(effects, sref),
                        j + 1,
                        end,
                    );
                }
            } else {
                lemma_bombs_keep(r, s, f, effects, j + 1, end);
            },
            _ => {
                lemma_bombs_keep(r, s, f, effects, j + 1, end);
            },
        }
    }
}

/// A tick without events at whose time the grading line already lies keeps the line where
/// it is, index and location on all four axes, as long as the chart does not run backward
/// and the line is settled on the axis of the actual time. It leaves the player in such a
/// state again, so the same tick once more keeps the line as well.
pub proof fn lemma_idle_tick_keeps_the_line(r: Rules, s: PlayState, now: u64)
    requires
        s.reverse is None,
        settled(r.objs, r.initbpm, s.cur, ObjAxis::ActualTime),
        chart_time(r, now) == s.cur.loc.time,
    ensures
        tick_spec(r, s, now, Seq::empty()).0.cur == s.cur,
        tick_spec(r, s, now, Seq::empty()).0.reverse is None,
        tick_spec(r, tick_spec(r, s, now, Seq::empty()).0, now, Seq::empty()).0.cur == s.cur,
{
    lemma_idle_tick(r, s, now);
    lemma_idle_tick(r, tick_spec(r, s, now, Seq::empty()).0, now);
}

/// One tick without events at whose time the settled grading line already lies.
proof fn lemma_idle_tick(r: Rules, s: PlayState, now: u64)
    requires
        s.reverse is None,
        settled(r.objs, r.initbpm, s.cur, ObjAxis::ActualTime),
        chart_time(r, now) == s.cur.loc.time,
    ensures
        tick_spec(r, s, now, Seq::empty()).0.cur == s.cur,
        tick_spec(r, s, now, Seq::empty()).0.reverse is None,
{
    let s1 = PlayState { now: now, ..eased(s) };
    lemma_seek_zero_idempotent(r.objs, r.initbpm, s.cur, ObjAxis::ActualTime);
    let cur = moved(r, s1, chart_time(r, now));
    assert(cur == s.cur);
    let f2 = Frame { cur: cur, checked: s1.checked, thru: s1.thru };
    let from = f2.checked.start_spec(r.objs);
    let to = f2.cur.start_spec(r.objs);
    lemma_sweep_keeps(r, s1, f2, from, to);
    let (s3, f3, e3, zero) = arrived(r, s, now);
    assert(!zero);
    assert(f3.cur == s.cur);
    assert(s3.reverse is None);
    assert(inputs_from(r, s3, f3, e3, Seq::<Event>::empty(), 0) == (s3, f3, e3, false));
    lemma_bombs_keep(r, s3, f3, e3, s.cur.start_spec(r.objs), f3.cur.start_spec(r.objs));
}

/// The events move neither the grading line stored nor the one of the tick.
proof fn lemma_inputs_keep(
    r: Rules,
    s: PlayState,
    f: Frame,
    effects: Seq<Effect>,
    events: Seq<Event>,
    k: int,
)
    ensures
        inputs_from(r, s, f, effects, events, k).1.cur == f.cur,
        inputs_from(r, s, f, effects, events, k).0.cur == s.cur,
    decreases events.len() - k,
{
    if k < 0 || k >= events.len() {
    } else {
        let (s1, f1, e1, quit) = input_step(r, s, f, effects, events[k]);
        assert(f1.cur == f.cur && s1.cur == s.cur);
        if !quit {
            lemma_inputs_keep(r, s1, f1, e1, events, k + 1);
        }
    }
}

/// In a chart with a positive initial BPM that does not run backward, a tick at or after the
/// time of the grading line leaves the line settled on the axis of the actual time if it was
/// so before, whatever the events and however the tick ends.
pub proof fn lemma_tick_keeps_the_line_settled(
    timeline: &Timeline,
    r: Rules,
    s: PlayState,
    now: u64,
    events: Seq<Event>,
)
    requires
        timeline.wf(),
        timeline.initbpm.0 > 0,
        r.objs == timeline.objs@,
        r.initbpm == timeline.initbpm,
        s.reverse is None,
        settled(r.objs, r.initbpm, s.cur, ObjAxis::ActualTime),
        chart_time(r, now) >= s.cur.loc.time,
    ensures
        settled(r.objs, r.initbpm, tick_spec(r, s, now, events).0.cur, ObjAxis::ActualTime),
{
    let s1 = PlayState { now: now, ..eased(s) };
    let cur = moved(r, s1, chart_time(r, now));
    lemma_forward_seek_settles(
        timeline,
        s.cur,
        ObjAxis::ActualTime,
        diff(chart_time(r, now), s.cur.loc.time),
    );
    assert(settled(r.objs, r.initbpm, cur, ObjAxis::ActualTime));
    lemma_activation_keeps(r, s1, Seq::<Effect>::empty(), s1.cur.start_spec(r.objs), cur.index as int);
    let (s3, f3, e3, zero) = arrived(r, s, now);
    if !zero {
        let s2 = activated(
            r,
            s1,
            Seq::<Effect>::empty(),
            s1.cur.start_spec(r.objs),
            cur.index as int,
        ).0;
        let f2 = Frame { cur: cur, checked: s2.checked, thru: s2.thru };
        lemma_sweep_keeps(r, s2, f2, f2.checked.start_spec(r.objs), f2.cur.start_spec(r.objs));
        assert(f3.cur == cur && s3.cur == s.cur);
        lemma_inputs_keep(r, s3, f3, e3, events, 0);
        let (s4, f4, e4, quit) = inputs_from(r, s3, f3, e3, events, 0);
        if !quit {
            lemma_bombs_keep(r, s4, f4, e4, s.cur.start_spec(r.objs), f4.cur.start_spec(r.objs));
            assert(timeline.objs@.len() == timeline.objs.len());
            assert(timeline.objs@.last().loc.wf());
            assert(settled(r.objs, r.initbpm, Pointer::end_spec(r.objs), ObjAxis::ActualTime));
        }
    }
}

/// A key of a lane that goes down as the only event of a tick, with nothing else holding the
/// lane, resolves the note that it finds within the grading area once the tick has arrived at
/// its time: the note was not resolved then and is after the tick, no other flag changes in
/// the rest of the tick, and the key is graded once, by the distance of the note.
pub proof fn lemma_tick_grades_a_press_once(
    r: Rules,
    s: PlayState,
    now: u64,
    event: Event,
    key: Input,
    state: InputState,
    lane: Lane,
)
    requires
        !r.opts.is_autoplay_spec(),
        !r.opts.is_exclusive_spec(),
        Input::from_event_spec(event) == Some((key, state)),
        !(key is Quit),
        !key.is_continuous_spec(),
        !(state is Neutral),
        r.keymap.contains_key(key.code_spec()),
        r.keymap[key.code_spec()] == VirtualInput::Lane(lane),
        lane.0 < NLANES,
        s.nograding.len() == r.objs.len(),
        s.keymultiplicity.len() == NLANES,
        s.keymultiplicity[lane.0 as int] == 0,
        ({
            let (s3, f3, _, zero) = arrived(r, s, now);
            let j = nearest_open(r.objs, s3.nograding, gradable_in(lane), f3.checked.index as int, f3.cur);
            &&& !zero
            &&& j >= 0
            &&& !(r.objs[j].data is LNDone)
            &&& in_area(norm_dist(r.gradefactor, f3.cur.loc.vtime, r.objs[j].loc.vtime))
        }),
    ensures
        ({
            let (s3, f3, e3, _) = arrived(r, s, now);
            let j = nearest_open(r.objs, s3.nograding, gradable_in(lane), f3.checked.index as int, f3.cur);
            let dist = norm_dist(r.gradefactor, f3.cur.loc.vtime, r.objs[j].loc.vtime);
            let s4 = inputs_from(r, s3, f3, e3, seq![event], 0).0;
            let after = tick_spec(r, s, now, seq![event]).0;
            &&& 0 <= j < r.objs.len()
            &&& !s.nograding[j]
            &&& after.nograding == s.nograding.update(j, true)
            &&& s4.tally == s3.tally.graded_by_distance(dist, now, r.nnotes)
            &&& s4.tally.lastgrade == Some((Grade::of_distance(dist as int), now))
            &&& s4.keymultiplicity[lane.0 as int] == 1
        }),
{
    lemma_arrival_keeps(r, s, now);
    let (s3, f3, e3, _) = arrived(r, s, now);
    let events = seq![event];
    let h = held(s3, lane, false, state);
    assert(released(s3, lane, false, state) == s3);
    assert(!lets_go(s3, lane, false, state));
    assert(takes_hold(s3, lane, false, state));
    assert(h.nograding == s3.nograding && h.tally == s3.tally && h.now == s3.now);
    lemma_press_grades_once(r, h, f3, e3, lane);
    let (p, pf, pe) = pressed(r, h, f3, e3, lane);
    assert(events[0] == event);
    assert(input_step(r, s3, f3, e3, event) == (p, pf, pe, false));
    assert(inputs_from(r, p, pf, pe, events, 1) == (p, pf, pe, false));
    assert(inputs_from(r, s3, f3, e3, events, 0) == (p, pf, pe, false));
    lemma_bombs_keep(r, p, pf, pe, s.cur.start_spec(r.objs), pf.cur.start_spec(r.objs));
}

/// The sweep keeps a long note in progress, or none, for each lane.
proof fn lemma_sweep_keeps_the_lanes(r: Rules, s: PlayState, f: Frame, j: int, end: int)
    requires
        f.thru.len() == NLANES,
        forall|i: int|
            0 <= i < r.objs.len() ==> match (#[trigger] r.objs[i]).data.lane_spec() {
                Some(lane) => lane.0 < NLANES,
                None => true,
            },
    ensures
        swept(r, s, f, j, end).1.thru.len() == NLANES,
    decreases end - j,
{
    if j >= end || j < 0 || j >= r.objs.len() {
    } else if !escaped(r, f.cur, j) {
    } else if missable(r, s, f.thru, j) {
        lemma_sweep_keeps_the_lanes(
            r,
            missed(r, s, Damage::GaugeDamage(crate::grade::MISS_DAMAGE)),
            Frame { thru: f.thru.update(r.objs[j].data.lane_spec().unwrap().0 as int, None), ..f },
            j + 1,
            end,
        );
    } else {
        lemma_sweep_keeps_the_lanes(r, s, f, j + 1, end);
    }
}

/// A key of a lane that goes up as the only event of a tick, being the only input that held
/// the lane, ends the long note that is in progress in the lane once the tick has arrived at
/// its time: without a grade if the end of the long note lies within the grading area, which
/// resolves the end, and with one MISS grade of the standard damage if not. Where the sweep
/// of the tick has ended the long note before, with its own MISS, the key adds nothing: a
/// long note is missed once.
pub proof fn lemma_tick_ends_a_long_note_once(
    r: Rules,
    s: PlayState,
    now: u64,
    event: Event,
    key: Input,
    lane: Lane,
)
    requires
        !r.opts.is_autoplay_spec(),
        !r.opts.is_exclusive_spec(),
        Input::from_event_spec(event) == Some((key, InputState::Neutral)),
        !(key is Quit),
        !key.is_continuous_spec(),
        r.keymap.contains_key(key.code_spec()),
        r.keymap[key.code_spec()] == VirtualInput::Lane(lane),
        lane.0 < NLANES,
        s.nograding.len() == r.objs.len(),
        s.keymultiplicity.len() == NLANES,
        s.thru.len() == NLANES,
        s.keymultiplicity[lane.0 as int] == 1,
        forall|i: int|
            0 <= i < r.objs.len() ==> match (#[trigger] r.objs[i]).data.lane_spec() {
                Some(l) => l.0 < NLANES,
                None => true,
            },
        !arrived(r, s, now).3,
    ensures
        ({
            let (s3, f3, e3, _) = arrived(r, s, now);
            let (s4, f4, e4, quit) = inputs_from(r, s3, f3, e3, seq![event], 0);
            let miss = s3.tally.graded(
                Grade::MISS,
                0,
                Some(Damage::GaugeDamage(crate::grade::MISS_DAMAGE)),
                now,
                r.nnotes,
            );
            &&& !quit
            &&& e4 == e3
            &&& f4.thru == f3.thru.update(lane.0 as int, None)
            &&& s4.keymultiplicity[lane.0 as int] == 0
            &&& match f3.thru[lane.0 as int] {
                Some(start) => {
                    let j = crate::pointer::next_of(r.objs, lndone_in(lane), start.start_spec(r.objs));
                    if j < r.objs.len() && in_area(
                        norm_dist(r.gradefactor, f3.cur.loc.vtime, r.objs[j].loc.vtime),
                    ) {
                        s4.tally == s3.tally && s4.nograding == s.nograding.update(j, true)
                    } else {
                        s4.tally == miss && s4.nograding == s.nograding
                    }
                },
                None => s4.tally == s3.tally && s4.nograding == s.nograding,
            }
            &&& miss.misses == crate::grade::bump(s3.tally.misses)
            &&& miss.lastgrade == Some((Grade::MISS, now))
            &&& miss.lastcombo == 0
            &&& miss.gauge == clamp_i64(s3.tally.gauge - 30)
            &&& tick_spec(r, s, now, seq![event]).0.nograding == s4.nograding
        }),
{
    lemma_arrival_keeps(r, s, now);
    let (s3, f3, e3, _) = arrived(r, s, now);
    let s1 = PlayState { now: now, ..eased(s) };
    let cur = moved(r, s1, chart_time(r, now));
    lemma_activation_keeps(r, s1, Seq::<Effect>::empty(), s1.cur.start_spec(r.objs), cur.index as int);
    let s2 = if s1.reverse is Some {
        s1
    } else {
        activated(r, s1, Seq::<Effect>::empty(), s1.cur.start_spec(r.objs), cur.index as int).0
    };
    let f2 = Frame { cur: cur, checked: s2.checked, thru: s2.thru };
    lemma_sweep_keeps_the_lanes(r, s2, f2, f2.checked.start_spec(r.objs), f2.cur.start_spec(r.objs));
    assert(f3.thru.len() == NLANES);
    let events = seq![event];
    let state = InputState::Neutral;
    let rel = released(s3, lane, false, state);
    assert(lets_go(s3, lane, false, state));
    assert(rel.nograding == s3.nograding && rel.tally == s3.tally && rel.now == s3.now);
    let (u, uf) = unpressed(r, rel, f3, lane);
    assert(!takes_hold(u, lane, false, state));
    assert(held(u, lane, false, state) == u);
    assert(events[0] == event);
    assert(input_step(r, s3, f3, e3, event) == (u, uf, e3, false));
    assert(inputs_from(r, u, uf, e3, events, 1) == (u, uf, e3, false));
    assert(inputs_from(r, s3, f3, e3, events, 0) == (u, uf, e3, false));
    assert(uf.thru =~= f3.thru.update(lane.0 as int, None));
    lemma_bombs_keep(r, u, uf, e3, s.cur.start_spec(r.objs), uf.cur.start_spec(r.objs));
    assert(crate::grade::gauge_loss(crate::grade::MISS_DAMAGE) == 30) by (nonlinear_arith)
        requires
            crate::grade::MISS_DAMAGE == 59_000,
    ;
}

/// Applies given modifier to the game data: to the lanes left of the split, then to the
/// lanes right of it if there are any.
pub fn apply_modf(bms: &mut Bms, modf: Modf, r: &mut StdRng, keyspec: &KeySpec)
    requires
        keyspec.wf(),
    ensures
        final(bms).meta == old(bms).meta,
        final(bms).bmspath == old(bms).bmspath,
        final(bms).timeline.initbpm == old(bms).timeline.initbpm,
        exists|mid: Seq<Obj>|
            #[trigger] modified(
                old(bms).timeline.objs@,
                mid,
                modf,
                chosen_lanes(keyspec, modf, 0, keyspec.split as int),
            ) && if keyspec.split < keyspec.order@.len() {
                modified(
                    mid,
                    final(bms).timeline.objs@,
                    modf,
                    chosen_lanes(
                        keyspec,
                        modf,
                        keyspec.split as int,
                        keyspec.order@.len() as int,
                    ),
                )
            } else {
                final(bms).timeline.objs@ == mid
            },
{
    apply_modf_to_lanes(&mut bms.timeline, modf, r, keyspec, 0, keyspec.split);
    let ghost mid = bms.timeline.objs@;
    if keyspec.split < keyspec.order.len() {
        apply_modf_to_lanes(
            &mut bms.timeline,
            modf,
            r,
            keyspec,
            keyspec.split,
            keyspec.order.len(),
        );
    }
    assert(modified(
        old(bms).timeline.objs@,
        mid,
        modf,
        chosen_lanes(keyspec, modf, 0, keyspec.split as int),
    ));
}

} // verus!
