//! Song and pattern selection: what is done to a chart between its loading and its play.

use rand::rngs::StdRng;
use vstd::prelude::*;
use crate::bms::Bms;
use crate::keyspec::{KeySpec, KeySpecError, KeySpecOutcome, key_spec, key_spec_outcome};
use crate::keyspec::{has_extension, kinds_of, lanes_of, path_has_extension};
use crate::modf::{Modf, chosen_lanes, filtered, modified};
use crate::obj::Obj;
use crate::player::apply_modf;
use crate::text::same_text;
use crate::timeline::{TimelineInfo, describes};

verus! {

/// The chart data that has been preprocessed for modifiers and analyzed but yet to be loaded.
pub struct PreprocessedBms {
    /// Yet-to-be-loaded chart data.
    pub bms: Bms,
    /// The derived timeline information.
    pub infos: TimelineInfo,
    /// The key specification.
    pub keyspec: KeySpec,
}

/// The scanned entry.
#[derive(Debug, PartialEq, Eq)]
pub struct Entry {
    /// A path to loaded file.
    pub path: String,
    /// MD5 hash. Only present when it has been read.
    pub hash: Option<[u8; 16]>,
}

/// The text of an option, if it is given.
pub open spec fn text_of(option: Option<String>) -> Option<Seq<char>> {
    match option {
        Some(t) => Some(t@),
        None => None,
    }
}

/// True if `after` is what the modifier, if there is one, may make of `before` with the key
/// specification: it is applied to the lanes left of the split, then to those right of it.
pub open spec fn modified_by(before: Seq<Obj>, after: Seq<Obj>, modf: Option<Modf>, keyspec: &KeySpec) -> bool {
    match modf {
        Some(m) => exists|mid: Seq<Obj>|
            #[trigger] modified(before, mid, m, chosen_lanes(keyspec, m, 0, keyspec.split as int))
                && if keyspec.split < keyspec.order@.len() {
                modified(
                    mid,
                    after,
                    m,
                    chosen_lanes(keyspec, m, keyspec.split as int, keyspec.order@.len() as int),
                )
            } else {
                after == mid
            },
        None => after == before,
    }
}

/// Preprocesses the loaded chart from given options: determines the key specification,
/// removes the lanes that it does not name, analyzes what is left and applies the modifier
/// if any. The analysis is that of the chart before the modifier. Fails as `key_spec` does.
pub fn preprocess_bms(
    bmspath: String,
    bms: Bms,
    preset: Option<String>,
    leftkeys: Option<String>,
    rightkeys: Option<String>,
    modf: Option<Modf>,
    r: &mut StdRng,
) -> (res: Result<PreprocessedBms, KeySpecError>)
    ensures
        match key_spec_outcome(
            bms.timeline.objs@,
            bms.meta.mode,
            Some(bmspath@),
            text_of(preset),
            text_of(leftkeys),
            text_of(rightkeys),
        ) {
            KeySpecOutcome::Fine { split, items } => res matches Ok(p) && p.keyspec.split
                == split && p.keyspec.order@ == lanes_of(items) && p.keyspec.kinds@ == kinds_of(
                items,
            ) && p.keyspec.wf() && p.bms.meta == bms.meta && p.bms.timeline.initbpm
                == bms.timeline.initbpm && describes(
                p.infos,
                filtered(bms.timeline.objs@, lanes_of(items)),
            ) && modified_by(
                filtered(bms.timeline.objs@, lanes_of(items)),
                p.bms.timeline.objs@,
                modf,
                &p.keyspec,
            ),
            KeySpecOutcome::InvalidPreset(name) => res matches Err(KeySpecError::InvalidPreset(t))
                && t@ == name,
            KeySpecOutcome::NoKeyModel => res matches Err(KeySpecError::NoKeyModel),
            KeySpecOutcome::InvalidLeft(text) => res matches Err(KeySpecError::InvalidLeft(t))
                && t@ == text,
            KeySpecOutcome::InvalidRight(text) => res matches Err(KeySpecError::InvalidRight(t))
                && t@ == text,
        },
{
    let Bms { bmspath: _, meta, timeline } = bms;
    let mut bms = Bms { bmspath: Some(bmspath), meta: meta, timeline: timeline };
    let keyspec = match key_spec(&bms, preset, leftkeys, rightkeys) {
        Ok(keyspec) => keyspec,
        Err(err) => {
            return Err(err);
        },
    };
    keyspec.filter_timeline(&mut bms.timeline);
    let infos = bms.timeline.analyze();
    match modf {
        Some(m) => {
            apply_modf(&mut bms, m, r, &keyspec);
        },
        None => {},
    }
    Ok(PreprocessedBms { bms: bms, infos: infos, keyspec: keyspec })
}

/// Returns true if the path should be parsed as a chart file: its extension is one of
/// `bms`, `bme`, `bml` and `pms`, in either case.
pub fn is_bms_file(path: &str) -> (r: bool)
    ensures
        r == (has_extension(path@, "bms"@) || has_extension(path@, "bme"@) || has_extension(
            path@,
            "bml"@,
        ) || has_extension(path@, "pms"@)),
{
    path_has_extension(path, "bms") || path_has_extension(path, "bme") || path_has_extension(
        path,
        "bml",
    ) || path_has_extension(path, "pms")
}

/// The maximum number of entries displayed in one screen.
pub const NUMENTRIES: usize = 15;

/// The number of milliseconds after `update_offset` before the actual preloading starts,
/// in order to avoid the worker congestion.
pub const PRELOAD_DELAY: u64 = 300;

/// The state of preloaded game data.
#[derive(Debug, PartialEq, Eq)]
pub enum PreloadingState {
    /// The selected entry cannot be used for preloading or the entry does not exist.
    NothingToPreload,
    /// The selected entry should be preloaded after given timestamp.
    PreloadAfter(u64),
    /// Preloading is in progress.
    Preloading,
    /// Preloading finished with a success.
    Preloaded,
    /// Preloading finished with a failure. Error message is available.
    PreloadFailed(String),
}

/// Song/pattern selection: the entries scanned so far and the one that is selected.
pub struct SelectingScene {
    /// The scanned entries.
    pub files: Vec<Entry>,
    /// The index of the topmost entry visible on the screen.
    pub scrolloffset: usize,
    /// The index of the selected entry.
    pub offset: usize,
    /// Preloaded game data or preloading state if any.
    pub preloaded: PreloadingState,
}

/// The topmost entry after the selection of the entry `offset`: the selection is kept within
/// the entries on the screen.
pub open spec fn scrolled(scrolloffset: usize, offset: usize) -> usize {
    if scrolloffset > offset {
        offset
    } else if scrolloffset + (NUMENTRIES - 1) < offset {
        (offset - (NUMENTRIES - 1)) as usize
    } else {
        scrolloffset
    }
}

impl SelectingScene {
    /// Returns the path to the currently selected entry if any.
    pub fn current(&self) -> (r: Option<&String>)
        ensures
            r == if self.offset < self.files@.len() {
                Some(&self.files@[self.offset as int].path)
            } else {
                None
            },
    {
        if self.offset < self.files.len() {
            Some(&self.files[self.offset].path)
        } else {
            None
        }
    }

    /// Checks if a given path indeed points to the current entry.
    pub fn is_current(&self, path: &str) -> (r: bool)
        ensures
            r == (self.offset < self.files@.len() && self.files@[self.offset as int].path@ == path@),
    {
        match self.current() {
            Some(current) => same_text(current.as_str(), path),
            None => false,
        }
    }

    /// Updates the selected entry at the timestamp `now`, in milliseconds. `offset` may be
    /// out of the range, where there is nothing to preload.
    pub fn update_offset(&mut self, offset: usize, now: u64)
        ensures
            final(self).files == old(self).files,
            final(self).offset == offset,
            final(self).preloaded == if offset < old(self).files@.len() {
                PreloadingState::PreloadAfter(
                    if now > u64::MAX - PRELOAD_DELAY {
                        u64::MAX
                    } else {
                        (now + PRELOAD_DELAY) as u64
                    },
                )
            } else {
                PreloadingState::NothingToPreload
            },
            final(self).scrolloffset == scrolled(old(self).scrolloffset, offset),
    {
        self.offset = offset;
        if offset < self.files.len() {
            let after: u64 = if now > u64::MAX - PRELOAD_DELAY {
                u64::MAX
            } else {
                now + PRELOAD_DELAY
            };
            self.preloaded = PreloadingState::PreloadAfter(after);
        } else {
            self.preloaded = PreloadingState::NothingToPreload;
        }
        if self.scrolloffset > offset {
            self.scrolloffset = offset;
        } else if offset >= NUMENTRIES - 1 && self.scrolloffset < offset - (NUMENTRIES - 1) {
            self.scrolloffset = offset - (NUMENTRIES - 1);
        }
    }
}

} // verus!
