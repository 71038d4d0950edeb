//! The part of a loaded chart file that the game play needs.

use vstd::prelude::*;
use crate::timeline::Timeline;

verus! {

/// Play mode specified in the chart file.
#[derive(Clone, Copy, Debug, PartialEq, Eq, Structural)]
pub enum PlayMode {
    /// Single Play (SP), where only channels #1x are used for the game play.
    Single,
    /// Couple Play, where channels #1x and #2x renders to the different panels.
    Couple,
    /// Double Play (DP), where both channels #1x and #2x renders to a single wide panel.
    Double,
    /// Battle Play, where channels #1x are copied to channels #2x and both renders to
    /// the different panels.
    Battle,
}

/// Loaded chart metadata and resources.
pub struct BmsMeta {
    /// Game mode.
    pub mode: PlayMode,
    /// Gauge difficulty. Higher is easier.
    pub rank: i32,
    /// Path to the directory which the resources are searched in, if the chart names one.
    pub basepath: Option<String>,
    /// Path to an image for loading screen.
    pub stagefile: Option<String>,
    /// Paths to sound file relative to the chart file.
    pub sndpath: Vec<Option<String>>,
    /// Paths to image/movie file relative to the chart file.
    pub imgpath: Vec<Option<String>>,
}

/// Loaded chart data. It is not a global state unlike C.
pub struct Bms {
    /// A path to the chart file if any. Also used for finding the resource when the chart
    /// file does not name a base path.
    pub bmspath: Option<String>,
    /// Metadata and resources.
    pub meta: BmsMeta,
    /// Timeline.
    pub timeline: Timeline,
}

} // verus!
