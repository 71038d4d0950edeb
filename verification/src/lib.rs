//! Sonorous: the timing and grading core of a music video game.
//!
//! A chart is a timed sequence of objects: notes, long notes, bombs, background sounds and
//! changes of tempo. The library navigates a chart along its four axes (`pointer`), maps the
//! events of the input devices to the lanes of the chart (`input`) and grades what the player
//! does, frame by frame (`player`). It touches no device: the caller hands in the time and the
//! events of each frame and gets back what to play.
//!
//! Every real-valued quantity is a fixed-point number with six decimal places held in an
//! integer: seconds, measures, beats per minute, play speeds and ratios alike.
//!
//! # Rounding
//!
//! Sums and differences of such numbers are exact. A product or a quotient is computed exactly
//! in a wider integer and then cut to six decimal places, toward zero, once: the seventh
//! decimal place and those after it are lost. This happens
//!
//! - where a time becomes a position or a position a time (`obj::BPM::measure_to_sec`,
//!   `obj::BPM::sec_to_measure`) and where a position is scaled (`obj::mul_div`),
//! - where a pointer lands between two objects or before the first one: on each axis its
//!   distance from the object behind it, or from the first object, is the interpolated one
//!   cut toward zero, so the pointer never lies farther from that object than the exact point
//!   (`pointer::lerp`, `pointer::before_first`),
//! - where a distance in time is scaled by the grade factor (`player::norm_dist`) and where
//!   the play speed moves a tenth of the way to its target (`player::eased`),
//! - where the share of the processed jobs is taken (`loading`), where a color is mixed
//!   (`gfx::mixed`), and where text is centered, by half a pixel at most (`bmfont`).
//!
//! Scores and gauges are whole numbers. The score of a graded note is the exact product of
//! its factors, rounded down by a single division at the end (`grade::distance_gain`); the
//! loss of gauge by a ratio is rounded down likewise (`grade::gauge_loss`). Only the weight
//! that `grade::weight_of` hands out is itself cut to six decimal places, so a score taken
//! from a weight (`grade::score_gain`) may fall one short of the score taken from the
//! distance. A result that leaves the range of its type is limited to that range
//! (`obj::clamp_i64`), and a finite coordinate to `obj::MAX_COORD`.

use vstd::prelude::*;

pub mod bmfont;
pub mod bms;
pub mod cache;
pub mod gfx;
pub mod grade;
pub mod input;
pub mod keyspec;
pub mod loading;
pub mod maybe_owned;
pub mod mixer;
pub mod modf;
pub mod obj;
pub mod player;
pub mod playing;
pub mod pointer;
pub mod preproc;
pub mod random;
pub mod resource;
pub mod selecting;
pub mod text;
pub mod timeline;

verus! {

/// Returns a version string.
pub fn version() -> (s: &'static str)
    ensures
        s@ == "Sonorous 0.1.0-pre"@,
{
    "Sonorous 0.1.0-pre"
}

} // verus!
