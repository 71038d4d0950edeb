//! Game play elements ("objects") and object-like effects.
//!
//! Every real-valued quantity is a fixed-point number with six decimal places held in an `i64`:
//! one second is `1_000_000`, one measure is `1_000_000`, 120 beats per minute is `120_000_000`
//! and a ratio of 5.9% is `59_000`.
//!
//! Products and quotients of such numbers are taken exactly and then rounded toward zero to
//! six decimal places (`div_trunc`, `mul_div`); the conversions between measures and seconds
//! round in this way. A result out of the range of an `i64` is limited to it (`clamp_i64`).

use vstd::prelude::*;

verus! {

/// The fixed-point representation of 1.0.
pub const UNIT: i64 = 1_000_000;

/// The largest magnitude of a finite coordinate.
pub const MAX_COORD: i64 = 0x10_0000_0000_0000;

/// The coordinate of an object that is never reached ("positive infinity").
pub const INFINITY: i64 = 0x7fff_ffff_ffff_ffff;

/// The maximum number of lanes.
pub const NLANES: usize = 72;

/// The number of BGA layers.
pub const NLAYERS: usize = 4;

/// A game play element mapped to the single input element (for example, button) and the screen
/// area (henceforth "lane").
#[derive(Clone, Copy, Debug, PartialEq, Eq, Structural)]
pub struct Lane(pub usize);

/// A reference to a sound resource.
#[derive(Clone, Copy, Debug, PartialEq, Eq, Structural)]
pub struct SoundRef(pub u32);

/// A reference to an image resource.
#[derive(Clone, Copy, Debug, PartialEq, Eq, Structural)]
pub struct ImageRef(pub u32);

/// BGA layers.
#[derive(Clone, Copy, Debug, PartialEq, Eq, Structural)]
pub enum BGALayer {
    /// The lowest layer.
    Layer1,
    /// The middle layer.
    Layer2,
    /// The highest layer.
    Layer3,
    /// The layer only displayed shortly after the MISS grade.
    PoorBGA,
}

impl BGALayer {
    /// The position of the layer in a BGA state.
    pub open spec fn index_spec(self) -> int {
        match self {
            BGALayer::Layer1 => 0,
            BGALayer::Layer2 => 1,
            BGALayer::Layer3 => 2,
            BGALayer::PoorBGA => 3,
        }
    }

    /// Returns the position of the layer in a BGA state, from the lowest layer up.
    pub fn index(self) -> (i: usize)
        ensures
            i == self.index_spec(),
            i < NLAYERS,
    {
        match self {
            BGALayer::Layer1 => 0,
            BGALayer::Layer2 => 1,
            BGALayer::Layer3 => 2,
            BGALayer::PoorBGA => 3,
        }
    }
}

/// The quotient of `num / den` rounded towards zero, for a positive `den`.
pub open spec fn div_trunc(num: int, den: int) -> int
    recommends
        den > 0,
{
    if num >= 0 {
        num / den
    } else {
        -((-num) / den)
    }
}

/// Limits a value to what an `i64` can hold.
pub open spec fn clamp_i64(v: int) -> int {
    if v < i64::MIN {
        i64::MIN as int
    } else if v > i64::MAX {
        i64::MAX as int
    } else {
        v
    }
}

/// Computes `a * b / den` rounded towards zero and limited to the range of `i64`.
pub fn mul_div(a: i64, b: i64, den: i64) -> (q: i64)
    requires
        den > 0,
    ensures
        q == clamp_i64(div_trunc(a * b, den as int)),
{
    assert(-0x4000_0000_0000_0000_0000_0000_0000_0000 <= a * b
        <= 0x4000_0000_0000_0000_0000_0000_0000_0000) by (nonlinear_arith)
        requires
            -0x8000_0000_0000_0000 <= a <= 0x8000_0000_0000_0000,
            -0x8000_0000_0000_0000 <= b <= 0x8000_0000_0000_0000,
    ;
    let wide: i128 = (a as i128) * (b as i128);
    let mag: i128 = if wide >= 0 {
        wide / (den as i128)
    } else {
        -((-wide) / (den as i128))
    };
    if mag < i64::MIN as i128 {
        i64::MIN
    } else if mag > i64::MAX as i128 {
        i64::MAX
    } else {
        mag as i64
    }
}

/// Beats per minute. Used as a conversion factor between the time position and actual time.
#[derive(Clone, Copy, Debug, PartialEq, Eq, Structural)]
pub struct BPM(pub i64);

impl BPM {
    /// The length in seconds of `measure` measures at a positive tempo.
    pub open spec fn measure_to_sec_spec(self, measure: int) -> int
        recommends
            self.0 > 0,
    {
        clamp_i64(div_trunc(measure * 240_000_000, self.0 as int))
    }

    /// The number of measures played in `sec` seconds at a positive tempo.
    pub open spec fn sec_to_measure_spec(self, sec: int) -> int {
        clamp_i64(div_trunc(sec * self.0, 240_000_000))
    }

    /// Converts a measure to a second. There is no such conversion at a tempo of zero or below,
    /// where the chart does not advance.
    pub fn measure_to_sec(self, measure: i64) -> (sec: Option<i64>)
        ensures
            sec == if self.0 > 0 {
                Some(self.measure_to_sec_spec(measure as int) as i64)
            } else {
                None
            },
    {
        if self.0 > 0 {
            Some(mul_div(measure, 240_000_000, self.0))
        } else {
            None
        }
    }

    /// Converts a second to a measure. A negative tempo gives a negative number of measures
    /// for a positive time.
    pub fn sec_to_measure(self, sec: i64) -> (measure: i64)
        ensures
            measure == self.sec_to_measure_spec(sec as int),
    {
        mul_div(sec, self.0, 240_000_000)
    }
}

/// A duration from the particular point. It may be specified in measures or seconds. Used in
/// the `Stop` object.
#[derive(Clone, Copy, Debug, PartialEq, Eq, Structural)]
pub enum Duration {
    Seconds(i64),
    Measures(i64),
}

impl Duration {
    /// The number held, whatever its unit.
    pub open spec fn amount(self) -> int {
        match self {
            Duration::Seconds(secs) => secs as int,
            Duration::Measures(measures) => measures as int,
        }
    }

    /// Returns the sign of the duration: -1, 0 or 1.
    pub fn sign(&self) -> (s: i32)
        ensures
            s == if self.amount() < 0 {
                -1int
            } else if self.amount() > 0 {
                1int
            } else {
                0int
            },
    {
        let v: i64 = match *self {
            Duration::Seconds(secs) => secs,
            Duration::Measures(measures) => measures,
        };
        if v < 0 {
            -1
        } else if v > 0 {
            1
        } else {
            0
        }
    }

    /// Calculates the actual seconds from the current BPM. A duration in measures has no length
    /// in seconds at a tempo of zero or below.
    pub fn to_sec(&self, bpm: BPM) -> (sec: Option<i64>)
        ensures
            sec == match *self {
                Duration::Seconds(secs) => Some(secs),
                Duration::Measures(measures) => if bpm.0 > 0 {
                    Some(bpm.measure_to_sec_spec(measures as int) as i64)
                } else {
                    None
                },
            },
    {
        match *self {
            Duration::Seconds(secs) => Some(secs),
            Duration::Measures(measures) => bpm.measure_to_sec(measures),
        }
    }
}

/// A damage value upon the MISS grade. Normally it is specified as a ratio of the full gauge,
/// but sometimes it may cause an instant death. Used in the `Bomb` object (normal note objects
/// have a fixed value).
#[derive(Clone, Copy, Debug, PartialEq, Eq, Structural)]
pub enum Damage {
    GaugeDamage(u32),
    InstantDeath,
}

/// A slice of the image.
///
/// Blitting occurs from the region `(sx,sy)-(sx+w,sy+h)` in the source surface to the region
/// `(dx,dy)-(dx+w,dy+h)` in the screen, in whole pixels.
#[derive(Clone, Copy, Debug, PartialEq, Eq, Structural)]
pub struct ImageSlice {
    pub sx: i32,
    pub sy: i32,
    pub dx: i32,
    pub dy: i32,
    pub w: i32,
    pub h: i32,
}

/// A reference to the BGA target, i.e. something that can be displayed in a single BGA layer.
#[derive(Clone, Copy, Debug, PartialEq, Eq)]
pub enum BGARef {
    /// Fully transparent image.
    BlankBGA,
    /// Static image.
    ImageBGA(ImageRef),
    /// A portion of static image.
    SlicedImageBGA(ImageRef, ImageSlice),
}

impl BGARef {
    /// Returns a reference to the underlying image resource if any.
    pub fn as_image_ref(&self) -> (iref: Option<ImageRef>)
        ensures
            iref == match *self {
                BGARef::BlankBGA => None,
                BGARef::ImageBGA(i) => Some(i),
                BGARef::SlicedImageBGA(i, _) => Some(i),
            },
    {
        match *self {
            BGARef::BlankBGA => None,
            BGARef::ImageBGA(iref) => Some(iref),
            BGARef::SlicedImageBGA(iref, _) => Some(iref),
        }
    }
}

/// A data for objects (or object-like effects). Does not include the time information.
#[derive(Clone, Copy, Debug, PartialEq, Eq)]
pub enum ObjData {
    /// Deleted object. Only used during various processing.
    Deleted,
    /// Visible object. Sound is played when the key is input inside the associated grading area.
    Visible(Lane, Option<SoundRef>),
    /// Invisible object. Sound is played when the key is input inside the associated grading
    /// area. No render nor grading performed.
    Invisible(Lane, Option<SoundRef>),
    /// Start of long note (LN). Sound is played when the key is down inside the associated
    /// grading area.
    LNStart(Lane, Option<SoundRef>),
    /// End of LN. Sound is played when the start of LN is graded, the key was down and now up
    /// inside the associated grading area.
    LNDone(Lane, Option<SoundRef>),
    /// Bomb. Pressing the key down at the moment that the object is on time causes
    /// the specified damage; sound is played in this case. No associated grading area.
    Bomb(Lane, Option<SoundRef>, Damage),
    /// Plays associated sound.
    BGM(SoundRef),
    /// Sets the virtual BGA layer to given image. The layer itself may not be displayed
    /// depending on the current game status.
    SetBGA(BGALayer, BGARef),
    /// Sets the BPM. Negative BPM causes the chart scrolls backwards. Zero BPM causes the chart
    /// immediately terminates.
    SetBPM(BPM),
    /// Stops the scroll of the chart for given duration.
    Stop(Duration),
    /// Restarts the scroll of the chart. This object is a no-op, but it is used to keep
    /// the linear relation between time and position axes.
    StopEnd,
    /// Sets the measure scaling factor, which is a ratio of the interval in the virtual position
    /// and the interval in the actual position.
    SetMeasureFactor(i64),
    /// Start of the measure, where the measure bar is drawn.
    MeasureBar,
    /// Marks the logical end of the chart. It should be the last object in the chart and should
    /// be placed in the different position from the next-to-last object.
    End,
}

impl ObjData {
    /// True for the five kinds that occupy a lane.
    pub open spec fn is_object_spec(self) -> bool {
        self is Visible || self is Invisible || self is LNStart || self is LNDone || self is Bomb
    }

    /// True for the kinds that may sound when the key of their lane goes down.
    pub open spec fn is_soundable_spec(self) -> bool {
        self is Visible || self is Invisible || self is LNStart || self is LNDone
    }

    /// True for the kinds that are graded.
    pub open spec fn is_gradable_spec(self) -> bool {
        self is Visible || self is LNStart || self is LNDone
    }

    /// True for the kinds that are drawn.
    pub open spec fn is_renderable_spec(self) -> bool {
        self is Visible || self is LNStart || self is LNDone || self is Bomb
    }

    /// The lane of an object, if the data is one.
    pub open spec fn lane_spec(self) -> Option<Lane> {
        match self {
            ObjData::Visible(lane, _) => Some(lane),
            ObjData::Invisible(lane, _) => Some(lane),
            ObjData::LNStart(lane, _) => Some(lane),
            ObjData::LNDone(lane, _) => Some(lane),
            ObjData::Bomb(lane, _, _) => Some(lane),
            _ => None,
        }
    }

    /// The sound attached to an object, if the data is one and has a sound.
    pub open spec fn object_sound_spec(self) -> Option<SoundRef> {
        match self {
            ObjData::Visible(_, snd) => snd,
            ObjData::Invisible(_, snd) => snd,
            ObjData::LNStart(_, snd) => snd,
            ObjData::LNDone(_, snd) => snd,
            ObjData::Bomb(_, snd, _) => snd,
            _ => None,
        }
    }

    /// Every sound that the data refers to.
    pub open spec fn sounds_spec(self) -> Seq<SoundRef> {
        match self {
            ObjData::BGM(snd) => seq![snd],
            _ => match self.object_sound_spec() {
                Some(snd) => seq![snd],
                None => Seq::empty(),
            },
        }
    }

    /// Every image that the data refers to.
    pub open spec fn images_spec(self) -> Seq<ImageRef> {
        match self {
            ObjData::SetBGA(_, BGARef::ImageBGA(iref)) => seq![iref],
            ObjData::SetBGA(_, BGARef::SlicedImageBGA(iref, _)) => seq![iref],
            _ => Seq::empty(),
        }
    }

    /// The sound played when the key goes down on the object.
    pub open spec fn keydown_sound_spec(self) -> Option<SoundRef> {
        match self {
            ObjData::Visible(_, snd) => snd,
            ObjData::Invisible(_, snd) => snd,
            ObjData::LNStart(_, snd) => snd,
            _ => None,
        }
    }

    /// What remains of the data once it no longer occupies a lane: the sound of a note plays
    /// in the background, a silent note or a bomb disappears, an effect stays as it is.
    pub open spec fn effect_spec(self) -> ObjData {
        match self {
            ObjData::Visible(_, Some(snd)) => ObjData::BGM(snd),
            ObjData::Invisible(_, Some(snd)) => ObjData::BGM(snd),
            ObjData::LNStart(_, Some(snd)) => ObjData::BGM(snd),
            ObjData::LNDone(_, Some(snd)) => ObjData::BGM(snd),
            ObjData::Visible(_, None) => ObjData::Deleted,
            ObjData::Invisible(_, None) => ObjData::Deleted,
            ObjData::LNStart(_, None) => ObjData::Deleted,
            ObjData::LNDone(_, None) => ObjData::Deleted,
            ObjData::Bomb(_, _, _) => ObjData::Deleted,
            other => other,
        }
    }

    /// The data moved to another lane. An effect has no lane and stays as it is.
    pub open spec fn with_lane_spec(self, lane: Lane) -> ObjData {
        match self {
            ObjData::Visible(_, snd) => ObjData::Visible(lane, snd),
            ObjData::Invisible(_, snd) => ObjData::Invisible(lane, snd),
            ObjData::LNStart(_, snd) => ObjData::LNStart(lane, snd),
            ObjData::LNDone(_, snd) => ObjData::LNDone(lane, snd),
            ObjData::Bomb(_, snd, damage) => ObjData::Bomb(lane, snd, damage),
            other => other,
        }
    }
}

/// Any type that contains `ObjData`.
pub trait ToObjData {
    /// The data contained.
    spec fn obj_data(&self) -> ObjData;

    /// Returns a copy of the data contained.
    fn to_obj_data(&self) -> (data: ObjData)
        ensures
            data == self.obj_data(),
    ;
}

/// Any type that contains and can individually update `ObjData`.
pub trait WithObjData: ToObjData + Sized {
    /// The value with its data replaced and everything else kept.
    spec fn replaced(&self, data: ObjData) -> Self;

    /// Returns a copy of the value with its data replaced by `data`.
    fn with_obj_data(&self, data: ObjData) -> (r: Self)
        ensures
            r == self.replaced(data),
            r.obj_data() == data,
    ;
}

impl ToObjData for ObjData {
    open spec fn obj_data(&self) -> ObjData {
        *self
    }

    fn to_obj_data(&self) -> (data: ObjData) {
        *self
    }
}

impl WithObjData for ObjData {
    open spec fn replaced(&self, data: ObjData) -> ObjData {
        data
    }

    fn with_obj_data(&self, data: ObjData) -> (r: ObjData) {
        data
    }
}

/// Query operations for objects. Implicitly defined in terms of `ToObjData` trait.
pub trait ObjQueryOps: ToObjData {
    /// Returns true if the object is deleted (`Deleted`).
    fn is_deleted(&self) -> (r: bool)
        ensures
            r == (self.obj_data() is Deleted),
    {
        match self.to_obj_data() {
            ObjData::Deleted => true,
            _ => false,
        }
    }

    /// Returns true if the object is a visible object (`Visible`).
    fn is_visible(&self) -> (r: bool)
        ensures
            r == (self.obj_data() is Visible),
    {
        match self.to_obj_data() {
            ObjData::Visible(..) => true,
            _ => false,
        }
    }

    /// Returns true if the object is an invisible object (`Invisible`).
    fn is_invisible(&self) -> (r: bool)
        ensures
            r == (self.obj_data() is Invisible),
    {
        match self.to_obj_data() {
            ObjData::Invisible(..) => true,
            _ => false,
        }
    }

    /// Returns true if the object is a start of LN object (`LNStart`).
    fn is_lnstart(&self) -> (r: bool)
        ensures
            r == (self.obj_data() is LNStart),
    {
        match self.to_obj_data() {
            ObjData::LNStart(..) => true,
            _ => false,
        }
    }

    /// Returns true if the object is an end of LN object (`LNDone`).
    fn is_lndone(&self) -> (r: bool)
        ensures
            r == (self.obj_data() is LNDone),
    {
        match self.to_obj_data() {
            ObjData::LNDone(..) => true,
            _ => false,
        }
    }

    /// Returns true if the object is either a start or an end of LN object.
    fn is_ln(&self) -> (r: bool)
        ensures
            r == (self.obj_data() is LNStart || self.obj_data() is LNDone),
    {
        match self.to_obj_data() {
            ObjData::LNStart(..) | ObjData::LNDone(..) => true,
            _ => false,
        }
    }

    /// Returns true if the object is a bomb (`Bomb`).
    fn is_bomb(&self) -> (r: bool)
        ensures
            r == (self.obj_data() is Bomb),
    {
        match self.to_obj_data() {
            ObjData::Bomb(..) => true,
            _ => false,
        }
    }

    /// Returns true if the object is soundable when it is the closest soundable object from
    /// the current position and the player pressed the key. Named "soundable" since it may
    /// choose not to play the associated sound. Note that not every object with sound is
    /// soundable.
    fn is_soundable(&self) -> (r: bool)
        ensures
            r == self.obj_data().is_soundable_spec(),
    {
        match self.to_obj_data() {
            ObjData::Visible(..) | ObjData::Invisible(..) | ObjData::LNStart(..)
            | ObjData::LNDone(..) => true,
            _ => false,
        }
    }

    /// Returns true if the object is subject to grading.
    fn is_gradable(&self) -> (r: bool)
        ensures
            r == self.obj_data().is_gradable_spec(),
    {
        match self.to_obj_data() {
            ObjData::Visible(..) | ObjData::LNStart(..) | ObjData::LNDone(..) => true,
            _ => false,
        }
    }

    /// Returns true if the object has a visible representation.
    fn is_renderable(&self) -> (r: bool)
        ensures
            r == self.obj_data().is_renderable_spec(),
    {
        match self.to_obj_data() {
            ObjData::Visible(..) | ObjData::LNStart(..) | ObjData::LNDone(..)
            | ObjData::Bomb(..) => true,
            _ => false,
        }
    }

    /// Returns true if the data is an object.
    fn is_object(&self) -> (r: bool)
        ensures
            r == self.obj_data().is_object_spec(),
    {
        match self.to_obj_data() {
            ObjData::Visible(..) | ObjData::Invisible(..) | ObjData::LNStart(..)
            | ObjData::LNDone(..) | ObjData::Bomb(..) => true,
            _ => false,
        }
    }

    /// Returns true if the data is a BGM.
    fn is_bgm(&self) -> (r: bool)
        ensures
            r == (self.obj_data() is BGM),
    {
        match self.to_obj_data() {
            ObjData::BGM(..) => true,
            _ => false,
        }
    }

    /// Returns true if the data is a BGA.
    fn is_setbga(&self) -> (r: bool)
        ensures
            r == (self.obj_data() is SetBGA),
    {
        match self.to_obj_data() {
            ObjData::SetBGA(..) => true,
            _ => false,
        }
    }

    /// Returns true if the data is a BPM change.
    fn is_setbpm(&self) -> (r: bool)
        ensures
            r == (self.obj_data() is SetBPM),
    {
        match self.to_obj_data() {
            ObjData::SetBPM(..) => true,
            _ => false,
        }
    }

    /// Returns true if the data is a scroll stopper.
    fn is_stop(&self) -> (r: bool)
        ensures
            r == (self.obj_data() is Stop),
    {
        match self.to_obj_data() {
            ObjData::Stop(..) => true,
            _ => false,
        }
    }

    /// Returns true if the data is the end of a scroll stopper.
    fn is_stopend(&self) -> (r: bool)
        ensures
            r == (self.obj_data() is StopEnd),
    {
        match self.to_obj_data() {
            ObjData::StopEnd => true,
            _ => false,
        }
    }

    /// Returns true if the data is a change in the measure scaling factor.
    fn is_setmeasurefactor(&self) -> (r: bool)
        ensures
            r == (self.obj_data() is SetMeasureFactor),
    {
        match self.to_obj_data() {
            ObjData::SetMeasureFactor(..) => true,
            _ => false,
        }
    }

    /// Returns true if the data is a measure bar.
    fn is_measurebar(&self) -> (r: bool)
        ensures
            r == (self.obj_data() is MeasureBar),
    {
        match self.to_obj_data() {
            ObjData::MeasureBar => true,
            _ => false,
        }
    }

    /// Returns true if the data is an end mark.
    fn is_end(&self) -> (r: bool)
        ensures
            r == (self.obj_data() is End),
    {
        match self.to_obj_data() {
            ObjData::End => true,
            _ => false,
        }
    }

    /// Returns an associated lane if the data is an object.
    fn object_lane(&self) -> (lane: Option<Lane>)
        ensures
            lane == self.obj_data().lane_spec(),
    {
        match self.to_obj_data() {
            ObjData::Visible(lane, _) | ObjData::Invisible(lane, _) | ObjData::LNStart(lane, _)
            | ObjData::LNDone(lane, _) | ObjData::Bomb(lane, _, _) => Some(lane),
            _ => None,
        }
    }

    /// Returns all sounds associated to the data.
    fn sounds(&self) -> (v: Vec<SoundRef>)
        ensures
            v@ == self.obj_data().sounds_spec(),
    {
        let mut v: Vec<SoundRef> = Vec::new();
        match self.to_obj_data() {
            ObjData::Visible(_, Some(sref)) | ObjData::Invisible(_, Some(sref))
            | ObjData::LNStart(_, Some(sref)) | ObjData::LNDone(_, Some(sref))
            | ObjData::Bomb(_, Some(sref), _) | ObjData::BGM(sref) => {
                v.push(sref);
            },
            _ => {},
        }
        assert(v@ =~= self.obj_data().sounds_spec());
        v
    }

    /// Returns all sounds played when key is pressed.
    fn keydown_sound(&self) -> (snd: Option<SoundRef>)
        ensures
            snd == self.obj_data().keydown_sound_spec(),
    {
        match self.to_obj_data() {
            ObjData::Visible(_, sref) | ObjData::Invisible(_, sref) | ObjData::LNStart(_, sref) => {
                sref
            },
            _ => None,
        }
    }

    /// Returns all sounds played when key is unpressed.
    fn keyup_sound(&self) -> (snd: Option<SoundRef>)
        ensures
            snd == match self.obj_data() {
                ObjData::LNDone(_, s) => s,
                _ => None,
            },
    {
        match self.to_obj_data() {
            ObjData::LNDone(_, sref) => sref,
            _ => None,
        }
    }

    /// Returns all sounds played when the object is activated while the corresponding key is
    /// currently pressed. Bombs are the only instance of this kind of sounds.
    fn through_sound(&self) -> (snd: Option<SoundRef>)
        ensures
            snd == match self.obj_data() {
                ObjData::Bomb(_, s, _) => s,
                _ => None,
            },
    {
        match self.to_obj_data() {
            ObjData::Bomb(_, sref, _) => sref,
            _ => None,
        }
    }

    /// Returns all images associated to the data.
    fn images(&self) -> (v: Vec<ImageRef>)
        ensures
            v@ == self.obj_data().images_spec(),
    {
        let mut v: Vec<ImageRef> = Vec::new();
        match self.to_obj_data() {
            ObjData::SetBGA(_, BGARef::ImageBGA(iref))
            | ObjData::SetBGA(_, BGARef::SlicedImageBGA(iref, _)) => {
                v.push(iref);
            },
            _ => {},
        }
        assert(v@ =~= self.obj_data().images_spec());
        v
    }

    /// Returns an associated damage value when the object is activated.
    fn through_damage(&self) -> (damage: Option<Damage>)
        ensures
            damage == match self.obj_data() {
                ObjData::Bomb(_, _, d) => Some(d),
                _ => None,
            },
    {
        match self.to_obj_data() {
            ObjData::Bomb(_, _, damage) => Some(damage),
            _ => None,
        }
    }
}

/// Conversion operations for objects. Implicitly defined in terms of `WithObjData` trait.
pub trait ObjConvOps: WithObjData + ObjQueryOps {
    /// Returns a visible object with the same time, lane and sound as given object.
    fn to_visible(&self) -> (r: Self)
        requires
            self.obj_data().is_object_spec(),
        ensures
            r == self.replaced(
                ObjData::Visible(
                    self.obj_data().lane_spec().unwrap(),
                    self.obj_data().object_sound_spec(),
                ),
            ),
    {
        let data = match self.to_obj_data() {
            ObjData::Visible(lane, snd) | ObjData::Invisible(lane, snd)
            | ObjData::LNStart(lane, snd) | ObjData::LNDone(lane, snd)
            | ObjData::Bomb(lane, snd, _) => ObjData::Visible(lane, snd),
            other => other,
        };
        self.with_obj_data(data)
    }

    /// Returns an invisible object with the same time, lane and sound as given object.
    fn to_invisible(&self) -> (r: Self)
        requires
            self.obj_data().is_object_spec(),
        ensures
            r == self.replaced(
                ObjData::Invisible(
                    self.obj_data().lane_spec().unwrap(),
                    self.obj_data().object_sound_spec(),
                ),
            ),
    {
        let data = match self.to_obj_data() {
            ObjData::Visible(lane, snd) | ObjData::Invisible(lane, snd)
            | ObjData::LNStart(lane, snd) | ObjData::LNDone(lane, snd)
            | ObjData::Bomb(lane, snd, _) => ObjData::Invisible(lane, snd),
            other => other,
        };
        self.with_obj_data(data)
    }

    /// Returns a start of LN object with the same time, lane and sound as given object.
    fn to_lnstart(&self) -> (r: Self)
        requires
            self.obj_data().is_object_spec(),
        ensures
            r == self.replaced(
                ObjData::LNStart(
                    self.obj_data().lane_spec().unwrap(),
                    self.obj_data().object_sound_spec(),
                ),
            ),
    {
        let data = match self.to_obj_data() {
            ObjData::Visible(lane, snd) | ObjData::Invisible(lane, snd)
            | ObjData::LNStart(lane, snd) | ObjData::LNDone(lane, snd)
            | ObjData::Bomb(lane, snd, _) => ObjData::LNStart(lane, snd),
            other => other,
        };
        self.with_obj_data(data)
    }

    /// Returns an end of LN object with the same time, lane and sound as given object.
    fn to_lndone(&self) -> (r: Self)
        requires
            self.obj_data().is_object_spec(),
        ensures
            r == self.replaced(
                ObjData::LNDone(
                    self.obj_data().lane_spec().unwrap(),
                    self.obj_data().object_sound_spec(),
                ),
            ),
    {
        let data = match self.to_obj_data() {
            ObjData::Visible(lane, snd) | ObjData::Invisible(lane, snd)
            | ObjData::LNStart(lane, snd) | ObjData::LNDone(lane, snd)
            | ObjData::Bomb(lane, snd, _) => ObjData::LNDone(lane, snd),
            other => other,
        };
        self.with_obj_data(data)
    }

    /// Returns a non-object version of given object. May return `Deleted` if it should be
    /// deleted.
    fn to_effect(&self) -> (r: Self)
        ensures
            r == self.replaced(self.obj_data().effect_spec()),
    {
        let data = match self.to_obj_data() {
            ObjData::Visible(_, Some(snd)) | ObjData::Invisible(_, Some(snd))
            | ObjData::LNStart(_, Some(snd)) | ObjData::LNDone(_, Some(snd)) => ObjData::BGM(snd),
            ObjData::Visible(_, None) | ObjData::Invisible(_, None) | ObjData::LNStart(_, None)
            | ObjData::LNDone(_, None) | ObjData::Bomb(_, _, _) => ObjData::Deleted,
            other => other,
        };
        self.with_obj_data(data)
    }

    /// Returns an object with lane replaced with given lane. No effect on object-like effects.
    fn with_object_lane(&self, lane: Lane) -> (r: Self)
        ensures
            r == self.replaced(self.obj_data().with_lane_spec(lane)),
    {
        let data = match self.to_obj_data() {
            ObjData::Visible(_, snd) => ObjData::Visible(lane, snd),
            ObjData::Invisible(_, snd) => ObjData::Invisible(lane, snd),
            ObjData::LNStart(_, snd) => ObjData::LNStart(lane, snd),
            ObjData::LNDone(_, snd) => ObjData::LNDone(lane, snd),
            ObjData::Bomb(_, snd, damage) => ObjData::Bomb(lane, snd, damage),
            other => other,
        };
        self.with_obj_data(data)
    }
}

impl ObjQueryOps for ObjData {

}

impl ObjConvOps for ObjData {

}

/// Axes available to the objects. See `Obj` for more information.
#[derive(Clone, Copy, Debug, PartialEq, Eq, Structural)]
pub enum ObjAxis {
    /// Virtual position.
    VirtualPos,
    /// Actual position.
    ActualPos,
    /// Virtual time.
    VirtualTime,
    /// Actual time.
    ActualTime,
}

/// Object location per axis.
#[derive(Clone, Copy, Debug, PartialEq, Eq, Structural)]
pub struct ObjLoc {
    /// Virtual position in measures.
    pub vpos: i64,
    /// Actual position in measures.
    pub pos: i64,
    /// Virtual time in seconds. Can be `INFINITY` if the chart scrolls backwards prior to
    /// this object and this object should not be graded.
    pub vtime: i64,
    /// Actual time in seconds. Can be `INFINITY` if the chart scrolls backwards prior to
    /// this object and this object should not be activated.
    pub time: i64,
}

/// True if a coordinate is `INFINITY` or a finite value of at most `MAX_COORD` in magnitude.
pub open spec fn coord_ok(c: i64) -> bool {
    c == INFINITY || -MAX_COORD <= c <= MAX_COORD
}

impl ObjLoc {
    /// The coordinate on one axis.
    pub open spec fn at(self, axis: ObjAxis) -> i64 {
        match axis {
            ObjAxis::VirtualPos => self.vpos,
            ObjAxis::ActualPos => self.pos,
            ObjAxis::VirtualTime => self.vtime,
            ObjAxis::ActualTime => self.time,
        }
    }

    /// True if all four coordinates are `INFINITY` or within `MAX_COORD`.
    pub open spec fn wf(self) -> bool {
        coord_ok(self.vpos) && coord_ok(self.pos) && coord_ok(self.vtime) && coord_ok(self.time)
    }

    /// Returns the coordinate on the given axis.
    pub fn index(&self, axis: ObjAxis) -> (c: i64)
        ensures
            c == self.at(axis),
    {
        match axis {
            ObjAxis::VirtualPos => self.vpos,
            ObjAxis::ActualPos => self.pos,
            ObjAxis::VirtualTime => self.vtime,
            ObjAxis::ActualTime => self.time,
        }
    }

    /// Locations are ordered by their actual time alone.
    pub fn lt(&self, other: &ObjLoc) -> (r: bool)
        ensures
            r == (self.time < other.time),
    {
        self.time < other.time
    }

    /// Locations are ordered by their actual time alone.
    pub fn le(&self, other: &ObjLoc) -> (r: bool)
        ensures
            r == (self.time <= other.time),
    {
        self.time <= other.time
    }

    /// Locations are ordered by their actual time alone.
    pub fn ge(&self, other: &ObjLoc) -> (r: bool)
        ensures
            r == (self.time >= other.time),
    {
        self.time >= other.time
    }

    /// Locations are ordered by their actual time alone.
    pub fn gt(&self, other: &ObjLoc) -> (r: bool)
        ensures
            r == (self.time > other.time),
    {
        self.time > other.time
    }
}

/// An object with precalculated position and time information.
///
/// There are four distinct axes: virtual position, actual position, virtual time and actual
/// time. Positions have a unit of measures, times have a unit of seconds. Specifically:
///
/// - Virtual position is what the chart file originally specified, and also what the player and
///   creator actually perceive as the "measure". This is used purely for user convenience.
/// - Actual position is a position after the measure scaling factor is applied. It linearly
///   relates to the relative position of game elements.
/// - Virtual time is related to the actual position by BPM. The grading procedure uses a
///   distance between the gradable object's virtual time and the current virtual time so the
///   rapid change of BPM does not affect the grading. Virtual time literally *stops* when `Stop`
///   is activated.
/// - Actual time is when the object is actually activated (played or overlapped with the grading
///   line), and related to the virtual time by `Stop` objects.
///
/// First three axes can *stop* while the actual time progresses. Axes are linearly related
/// between consecutive objects.
#[derive(Clone, Copy, Debug, PartialEq, Eq)]
pub struct Obj {
    /// Object location.
    pub loc: ObjLoc,
    /// Associated object data.
    pub data: ObjData,
}

impl Obj {
    /// Objects are ordered by their actual time alone.
    pub fn lt(&self, other: &Obj) -> (r: bool)
        ensures
            r == (self.loc.time < other.loc.time),
    {
        self.loc.lt(&other.loc)
    }

    /// Objects are ordered by their actual time alone.
    pub fn le(&self, other: &Obj) -> (r: bool)
        ensures
            r == (self.loc.time <= other.loc.time),
    {
        self.loc.le(&other.loc)
    }

    /// Objects are ordered by their actual time alone.
    pub fn ge(&self, other: &Obj) -> (r: bool)
        ensures
            r == (self.loc.time >= other.loc.time),
    {
        self.loc.ge(&other.loc)
    }

    /// Objects are ordered by their actual time alone.
    pub fn gt(&self, other: &Obj) -> (r: bool)
        ensures
            r == (self.loc.time > other.loc.time),
    {
        self.loc.gt(&other.loc)
    }
}

impl ToObjData for Obj {
    open spec fn obj_data(&self) -> ObjData {
        self.data
    }

    fn to_obj_data(&self) -> (data: ObjData) {
        self.data
    }
}

impl WithObjData for Obj {
    open spec fn replaced(&self, data: ObjData) -> Obj {
        Obj { loc: self.loc, data: data }
    }

    fn with_obj_data(&self, data: ObjData) -> (r: Obj) {
        Obj { loc: self.loc, data: data }
    }
}

impl ObjQueryOps for Obj {

}

impl ObjConvOps for Obj {

}

} // verus!
