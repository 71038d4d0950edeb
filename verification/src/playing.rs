//! Game play screen: the appearance of the lanes.

use vstd::prelude::*;
use crate::gfx::Color;
use crate::grade::Grade;
use crate::keyspec::{KeyKind, KeySpec};
use crate::loading::SceneCommand;
use crate::obj::Lane;
use crate::player::Player;
use crate::pointer::{ObjClass, ObjFilter, next_of};
use crate::resource::{BGAH, BGAW};

verus! {

/// An appearance for each lane.
#[derive(Clone, Copy, Debug, PartialEq, Eq)]
pub struct LaneStyle {
    /// The left position of the lane in the final screen.
    pub left: usize,
    /// The left position of the lane in the object sprite.
    pub spriteleft: usize,
    /// The left position of the lane in the bomb sprite.
    pub spritebombleft: usize,
    /// The width of lane.
    pub width: usize,
    /// The base color of object. The actual gradient for drawing is derived from this color.
    pub basecolor: Color,
}

impl LaneStyle {
    /// The width of a lane of the given kind: 25 for a key, 30 for a button, 40 for a scratch
    /// or a foot pedal.
    pub open spec fn width_spec(kind: KeyKind) -> usize {
        match kind {
            KeyKind::WhiteKey | KeyKind::WhiteKeyAlt | KeyKind::BlackKey => 25,
            KeyKind::Scratch | KeyKind::FootPedal => 40,
            _ => 30,
        }
    }

    /// The style of a lane of the given kind whose left edge, or right edge if `right` is
    /// set, lies at `pos`.
    pub open spec fn from_kind_spec(kind: KeyKind, pos: usize, right: bool) -> LaneStyle {
        let (spriteleft, spritebombleft, color) = match kind {
            KeyKind::WhiteKey => (25usize, 0usize, Color { r: 0x80, g: 0x80, b: 0x80 }),
            KeyKind::WhiteKeyAlt => (50usize, 0usize, Color { r: 0xf0, g: 0xe0, b: 0x80 }),
            KeyKind::BlackKey => (75usize, 0usize, Color { r: 0x80, g: 0x80, b: 0xff }),
            KeyKind::Button1 => (130usize, 100usize, Color { r: 0xe0, g: 0xe0, b: 0xe0 }),
            KeyKind::Button2 => (160usize, 100usize, Color { r: 0xff, g: 0xff, b: 0x40 }),
            KeyKind::Button3 => (190usize, 100usize, Color { r: 0x80, g: 0xff, b: 0x80 }),
            KeyKind::Button4 => (220usize, 100usize, Color { r: 0x80, g: 0x80, b: 0xff }),
            KeyKind::Button5 => (250usize, 100usize, Color { r: 0xff, g: 0x40, b: 0x40 }),
            KeyKind::Scratch => (320usize, 280usize, Color { r: 0xff, g: 0x80, b: 0x80 }),
            KeyKind::FootPedal => (360usize, 280usize, Color { r: 0x80, g: 0xff, b: 0x80 }),
        };
        LaneStyle {
            left: if right {
                (pos - LaneStyle::width_spec(kind)) as usize
            } else {
                pos
            },
            spriteleft: spriteleft,
            spritebombleft: spritebombleft,
            width: LaneStyle::width_spec(kind),
            basecolor: color,
        }
    }

    /// Constructs a new `LaneStyle` object from given key kind and the left or right
    /// position. A right position must leave room for the width of the lane.
    pub fn from_kind(kind: KeyKind, pos: usize, right: bool) -> (style: LaneStyle)
        requires
            right ==> pos >= LaneStyle::width_spec(kind),
        ensures
            style == LaneStyle::from_kind_spec(kind, pos, right),
    {
        let (spriteleft, spritebombleft, width, color): (usize, usize, usize, Color) = match kind {
            KeyKind::WhiteKey => (25, 0, 25, Color { r: 0x80, g: 0x80, b: 0x80 }),
            KeyKind::WhiteKeyAlt => (50, 0, 25, Color { r: 0xf0, g: 0xe0, b: 0x80 }),
            KeyKind::BlackKey => (75, 0, 25, Color { r: 0x80, g: 0x80, b: 0xff }),
            KeyKind::Button1 => (130, 100, 30, Color { r: 0xe0, g: 0xe0, b: 0xe0 }),
            KeyKind::Button2 => (160, 100, 30, Color { r: 0xff, g: 0xff, b: 0x40 }),
            KeyKind::Button3 => (190, 100, 30, Color { r: 0x80, g: 0xff, b: 0x80 }),
            KeyKind::Button4 => (220, 100, 30, Color { r: 0x80, g: 0x80, b: 0xff }),
            KeyKind::Button5 => (250, 100, 30, Color { r: 0xff, g: 0x40, b: 0x40 }),
            KeyKind::Scratch => (320, 280, 40, Color { r: 0xff, g: 0x80, b: 0x80 }),
            KeyKind::FootPedal => (360, 280, 40, Color { r: 0x80, g: 0xff, b: 0x80 }),
        };
        let left: usize = if right {
            pos - width
        } else {
            pos
        };
        LaneStyle {
            left: left,
            spriteleft: spriteleft,
            spritebombleft: spritebombleft,
            width: width,
            basecolor: color,
        }
    }
}

/// The width of the screen.
pub const SCREENW: usize = 800;

/// The height of the screen.
pub const SCREENH: usize = 600;

/// The least width of the area next to the lanes of a side: fewer lanes are moved towards
/// the center.
pub const CUTOFF: usize = 165;

/// The width of the lane at the place `i` of the order.
pub open spec fn lane_width(keyspec: &KeySpec, i: int) -> int {
    LaneStyle::width_spec(keyspec.kinds@[keyspec.order@[i].0 as int].unwrap()) as int
}

/// The left edge of the lane at the place `k` of the left side: the lanes before it lie side
/// by side from the left edge of the screen on, one pixel apart.
pub open spec fn left_edge(keyspec: &KeySpec, k: int) -> int
    decreases k,
{
    if k <= 0 {
        0
    } else {
        left_edge(keyspec, k - 1) + lane_width(keyspec, k - 1) + 1
    }
}

/// The right edge of the lane that is the `j`-th from the right: the lanes right of it lie
/// side by side up to the right edge of the screen, one pixel apart.
pub open spec fn right_edge(keyspec: &KeySpec, j: int) -> int
    decreases j,
{
    if j <= 0 {
        SCREENW as int
    } else {
        right_edge(keyspec, j - 1) - lane_width(keyspec, keyspec.order@.len() - j) - 1
    }
}

/// True if the screen holds the lanes: the left side leaves 20 pixels at the right, each
/// lane of the right side begins with 40 pixels between its right edge and the left side,
/// and the right side does not reach beyond the left edge of the screen.
pub open spec fn fits(keyspec: &KeySpec) -> bool {
    &&& forall|k: int| 1 <= k <= keyspec.split ==> #[trigger] left_edge(keyspec, k) <= SCREENW - 20
    &&& forall|j: int|
        0 <= j < keyspec.order@.len() - keyspec.split ==> #[trigger] right_edge(keyspec, j)
            >= left_edge(keyspec, keyspec.split as int) + 40
    &&& right_edge(keyspec, keyspec.order@.len() - keyspec.split) >= 0
}

/// How far the lanes of the left side are moved to the right.
pub open spec fn left_shift(keyspec: &KeySpec) -> int {
    let leftmost = left_edge(keyspec, keyspec.split as int);
    if leftmost < CUTOFF {
        (CUTOFF - leftmost) / 2
    } else {
        0
    }
}

/// How far the lanes of the right side are moved to the left.
pub open spec fn right_shift(keyspec: &KeySpec) -> int {
    let n = keyspec.order@.len() - keyspec.split;
    let rightmost = right_edge(keyspec, n);
    if n > 0 && rightmost > SCREENW - CUTOFF {
        (rightmost - (SCREENW - CUTOFF)) / 2
    } else {
        0
    }
}

/// The lane and the style at the place `i` of the styles: the lanes of the left side from
/// left to right, then those of the right side from right to left.
pub open spec fn style_at(keyspec: &KeySpec, i: int) -> (Lane, LaneStyle) {
    if i < keyspec.split {
        let lane = keyspec.order@[i];
        let style = LaneStyle::from_kind_spec(
            keyspec.kinds@[lane.0 as int].unwrap(),
            left_edge(keyspec, i) as usize,
            false,
        );
        (lane, LaneStyle { left: (style.left + left_shift(keyspec)) as usize, ..style })
    } else {
        let j = i - keyspec.split;
        let lane = keyspec.order@[keyspec.order@.len() - 1 - j];
        let style = LaneStyle::from_kind_spec(
            keyspec.kinds@[lane.0 as int].unwrap(),
            right_edge(keyspec, j) as usize,
            true,
        );
        (lane, LaneStyle { left: (style.left - right_shift(keyspec)) as usize, ..style })
    }
}

/// The screen has no room for the lanes.
#[derive(Clone, Copy, Debug, PartialEq, Eq, Structural)]
pub struct TooManyLanes;

/// The edges of the left side grow with the lanes.
proof fn lemma_left_edge(keyspec: &KeySpec, k: int)
    requires
        keyspec.wf(),
        0 <= k <= keyspec.order@.len(),
    ensures
        0 <= left_edge(keyspec, k) <= 41 * k,
    decreases k,
{
    if k > 0 {
        lemma_left_edge(keyspec, k - 1);
    }
}

/// The edges of the right side fall with the lanes.
proof fn lemma_right_edge(keyspec: &KeySpec, j: int)
    requires
        keyspec.wf(),
        0 <= j <= keyspec.order@.len(),
    ensures
        SCREENW - 41 * j <= right_edge(keyspec, j) <= SCREENW - 26 * j,
    decreases j,
{
    if j > 0 {
        lemma_right_edge(keyspec, j - 1);
    }
}

/// The further a lane is from the right, the further left is its right edge.
proof fn lemma_right_monotone(keyspec: &KeySpec, a: int, b: int)
    requires
        keyspec.wf(),
        0 <= a <= b <= keyspec.order@.len(),
    ensures
        right_edge(keyspec, b) <= right_edge(keyspec, a),
    decreases b - a,
{
    if a < b {
        lemma_right_monotone(keyspec, a, b - 1);
    }
}

/// Builds a list of `LaneStyle`s from the key specification. Returns the left edge of the
/// area next to the lanes, its right edge if there are lanes on the right side, and the
/// styles of the lanes.
pub fn build_lane_styles(keyspec: &KeySpec) -> (r: Result<
    (usize, Option<usize>, Vec<(Lane, LaneStyle)>),
    TooManyLanes,
>)
    requires
        keyspec.wf(),
    ensures
        match r {
            Ok((leftmost, rightmost, styles)) => {
                &&& fits(keyspec)
                &&& leftmost == if left_edge(keyspec, keyspec.split as int) < CUTOFF {
                    CUTOFF as int
                } else {
                    left_edge(keyspec, keyspec.split as int)
                }
                &&& rightmost == if keyspec.order@.len() == keyspec.split {
                    None::<usize>
                } else if right_edge(keyspec, keyspec.order@.len() - keyspec.split) > SCREENW
                    - CUTOFF {
                    Some((SCREENW - CUTOFF) as usize)
                } else {
                    Some(right_edge(keyspec, keyspec.order@.len() - keyspec.split) as usize)
                }
                &&& styles@.len() == keyspec.order@.len()
                &&& forall|i: int|
                    0 <= i < styles@.len() ==> #[trigger] styles@[i] == style_at(keyspec, i)
            },
            Err(_) => !fits(keyspec),
        },
{
    let n: usize = keyspec.order.len();
    let split: usize = keyspec.split;
    let mut leftmost: usize = 0;
    let mut rightmost: usize = SCREENW;
    let mut styles: Vec<(Lane, LaneStyle)> = Vec::new();
    let mut i: usize = 0;
    while i < split
        invariant
            keyspec.wf(),
            n == keyspec.order@.len(),
            split == keyspec.split,
            0 <= i <= split,
            leftmost == left_edge(keyspec, i as int),
            leftmost <= SCREENW - 20,
            styles@.len() == i,
            forall|k: int| 1 <= k <= i ==> #[trigger] left_edge(keyspec, k) <= SCREENW - 20,
            forall|k: int|
                0 <= k < i ==> (#[trigger] styles@[k]).0 == keyspec.order@[k] && styles@[k].1
                    == LaneStyle::from_kind_spec(
                    keyspec.kinds@[keyspec.order@[k].0 as int].unwrap(),
                    left_edge(keyspec, k) as usize,
                    false,
                ),
        decreases split - i,
    {
        let lane = keyspec.order[i];
        let kind = match keyspec.kinds[lane.0] {
            Some(kind) => kind,
            None => KeyKind::WhiteKey,
        };
        let style = LaneStyle::from_kind(kind, leftmost, false);
        styles.push((lane, style));
        leftmost += style.width + 1;
        i += 1;
        if leftmost > SCREENW - 20 {
            assert(left_edge(keyspec, i as int) > SCREENW - 20);
            return Err(TooManyLanes);
        }
    }
    let ghost lefts = styles@;
    let nright: usize = n - split;
    let mut j: usize = 0;
    while j < nright
        invariant
            keyspec.wf(),
            n == keyspec.order@.len(),
            split == keyspec.split,
            nright == n - split,
            0 <= j <= nright,
            leftmost == left_edge(keyspec, split as int),
            leftmost <= SCREENW - 20,
            rightmost == right_edge(keyspec, j as int),
            rightmost <= SCREENW,
            styles@.len() == split + j,
            forall|k: int| 1 <= k <= split ==> #[trigger] left_edge(keyspec, k) <= SCREENW - 20,
            forall|k: int| 0 <= k < j ==> #[trigger] right_edge(keyspec, k) >= leftmost + 40,
            forall|k: int| 0 <= k < split ==> #[trigger] styles@[k] == lefts[k],
            forall|k: int|
                0 <= k < split ==> (#[trigger] lefts[k]).0 == keyspec.order@[k] && lefts[k].1
                    == LaneStyle::from_kind_spec(
                    keyspec.kinds@[keyspec.order@[k].0 as int].unwrap(),
                    left_edge(keyspec, k) as usize,
                    false,
                ),
            forall|k: int|
                0 <= k < j ==> (#[trigger] styles@[split + k]).0 == keyspec.order@[n - 1 - k]
                    && styles@[split + k].1 == LaneStyle::from_kind_spec(
                    keyspec.kinds@[keyspec.order@[n - 1 - k].0 as int].unwrap(),
                    right_edge(keyspec, k) as usize,
                    true,
                ),
        decreases nright - j,
    {
        if rightmost < leftmost + 40 {
            return Err(TooManyLanes);
        }
        let lane = keyspec.order[n - 1 - j];
        let kind = match keyspec.kinds[lane.0] {
            Some(kind) => kind,
            None => KeyKind::WhiteKey,
        };
        let style = LaneStyle::from_kind(kind, rightmost, true);
        styles.push((lane, style));
        if rightmost < style.width + 1 {
            proof {
                lemma_right_monotone(keyspec, j + 1, nright as int);
            }
            return Err(TooManyLanes);
        }
        rightmost -= style.width + 1;
        j += 1;
    }
    assert(fits(keyspec));
    proof {
        assert forall|m: int| 0 <= m < split implies (#[trigger] styles@[m]).1.left <= SCREENW by {
            assert(styles@[m] == lefts[m]);
            lemma_left_edge(keyspec, m);
            if m > 0 {
                assert(left_edge(keyspec, m) <= SCREENW - 20);
            }
        }
        assert forall|m: int| split <= m < split + nright implies (#[trigger] styles@[m]).1.left
            > right_edge(keyspec, nright as int) by {
            let k = m - split;
            lemma_right_edge(keyspec, k);
            assert(right_edge(keyspec, k) >= leftmost + 40);
            assert(styles@[split + k].1.left == right_edge(keyspec, k) - lane_width(
                keyspec,
                n - 1 - k,
            ));
            lemma_right_monotone(keyspec, k + 1, nright as int);
        }
    }
    let ghost built = styles@;
    let rightmost: Option<usize> = if rightmost == SCREENW {
        None
    } else {
        Some(rightmost)
    };
    proof {
        lemma_right_edge(keyspec, nright as int);
        lemma_left_edge(keyspec, split as int);
    }
    // move lanes to the center if there are too small number of lanes
    let mut leftmost = leftmost;
    if leftmost < CUTOFF {
        let shift: usize = (CUTOFF - leftmost) / 2;
        let mut k: usize = 0;
        while k < split
            invariant
                0 <= k <= split,
                shift <= CUTOFF,
                styles@.len() == built.len(),
                built.len() == split + nright,
                forall|m: int|
                    0 <= m < built.len() ==> (#[trigger] styles@[m]).0 == built[m].0 && styles@[m].1
                        == if m < k {
                        (LaneStyle { left: (built[m].1.left + shift) as usize, ..built[m].1 })
                    } else {
                        built[m].1
                    },
                forall|m: int| 0 <= m < split ==> (#[trigger] built[m]).1.left <= SCREENW,
            decreases split - k,
        {
            let (lane, style) = styles[k];
            styles.set(
                k,
                (
                    lane,
                    LaneStyle {
                        left: style.left + shift,
                        spriteleft: style.spriteleft,
                        spritebombleft: style.spritebombleft,
                        width: style.width,
                        basecolor: style.basecolor,
                    },
                ),
            );
            k += 1;
        }
        leftmost = CUTOFF;
    }
    let ghost shifted = styles@;
    assert forall|m: int| split <= m < split + nright implies (#[trigger] shifted[m]).1.left
        > right_edge(keyspec, nright as int) by {
        assert(shifted[m].1 == built[m].1);
    }
    let mut rightmost = rightmost;
    match rightmost {
        Some(right) => {
            if right > SCREENW - CUTOFF {
                let shift: usize = (right - (SCREENW - CUTOFF)) / 2;
                let total: usize = styles.len();
                let mut k: usize = split;
                while k < total
                    invariant
                        split <= k <= total,
                        total == shifted.len(),
                        styles@.len() == total,
                        shift <= CUTOFF,
                        forall|m: int|
                            0 <= m < total ==> (#[trigger] styles@[m]).0 == shifted[m].0
                                && styles@[m].1 == if split <= m < k {
                                (LaneStyle {
                                    left: (shifted[m].1.left - shift) as usize,
                                    ..shifted[m].1
                                })
                            } else {
                                shifted[m].1
                            },
                        forall|m: int|
                            split <= m < total ==> (#[trigger] shifted[m]).1.left >= shift,
                    decreases total - k,
                {
                    let (lane, style) = styles[k];
                    styles.set(
                        k,
                        (
                            lane,
                            LaneStyle {
                                left: style.left - shift,
                                spriteleft: style.spriteleft,
                                spritebombleft: style.spritebombleft,
                                width: style.width,
                                basecolor: style.basecolor,
                            },
                        ),
                    );
                    k += 1;
                }
                rightmost = Some(SCREENW - CUTOFF);
            }
        },
        None => {},
    }
    proof {
        assert forall|i: int| 0 <= i < styles@.len() implies #[trigger] styles@[i] == style_at(
            keyspec,
            i,
        ) by {
            if i < split {
                assert(built[i] == lefts[i]);
                assert(shifted[i].0 == built[i].0);
                lemma_left_edge(keyspec, i);
            } else {
                let k = i - split;
                assert(built[split + k].0 == keyspec.order@[n - 1 - k]);
                assert(shifted[i].0 == built[i].0);
                assert(shifted[i].1 == built[i].1);
                lemma_right_edge(keyspec, k);
            }
        }
    }
    Ok((leftmost, rightmost, styles))
}

/// Game play scene context. Used for the normal game play and automatic play mode.
pub struct PlayingScene {
    /// Game play state with various non-graphic resources.
    pub player: Player,
    /// The leftmost X coordinate of the area next to the lanes, that is, the total width of
    /// left-hand-side lanes.
    pub leftmost: usize,
    /// The rightmost X coordinate of the area next to the lanes, that is, the screen width
    /// minus the total width of right-hand-side lanes if any. `None` indicates the absence of
    /// right-hand-side lanes.
    pub rightmost: Option<usize>,
    /// The order and appearance of lanes.
    pub lanestyles: Vec<(Lane, LaneStyle)>,
    /// The left coordinate of the BGA.
    pub bgax: usize,
    /// The top coordinate of the BGA.
    pub bgay: usize,
    /// If not `None`, indicates that the POOR BGA should be displayed until this timestamp.
    pub poorlimit: Option<u64>,
    /// If not `None`, indicates that the grading information should be displayed until
    /// this timestamp.
    pub gradelimit: Option<u64>,
}

/// A timestamp some milliseconds later, as far as there is one.
pub open spec fn later(when: u64, by: u64) -> u64 {
    if when + by > u64::MAX {
        u64::MAX
    } else {
        (when + by) as u64
    }
}

/// The limit of a display that a grade at `when` keeps up for `by` milliseconds, at the
/// timestamp `now`: the later of the limit so far and of the new one, unless that is over.
pub open spec fn limit_after(limit: Option<u64>, when: Option<u64>, by: u64, now: u64) -> Option<
    u64,
> {
    let extended = match when {
        Some(w) => match limit {
            Some(t) => if t > later(w, by) {
                Some(t)
            } else {
                Some(later(w, by))
            },
            None => Some(later(w, by)),
        },
        None => limit,
    };
    match extended {
        Some(t) => if t < now {
            None
        } else {
            Some(t)
        },
        None => None,
    }
}

/// Calculates the limit of a display.
fn extend_limit(limit: Option<u64>, when: Option<u64>, by: u64, now: u64) -> (r: Option<u64>)
    ensures
        r == limit_after(limit, when, by, now),
{
    let extended: Option<u64> = match when {
        Some(w) => {
            let minlimit: u64 = if w > u64::MAX - by {
                u64::MAX
            } else {
                w + by
            };
            match limit {
                Some(t) => if t > minlimit {
                    Some(t)
                } else {
                    Some(minlimit)
                },
                None => Some(minlimit),
            }
        },
        None => limit,
    };
    match extended {
        Some(t) => if t < now {
            None
        } else {
            Some(t)
        },
        None => None,
    }
}

impl PlayingScene {
    /// Creates a new game play scene from the player: lays the lanes out and puts the BGA
    /// into the middle of the area next to them.
    pub fn new(player: Player) -> (r: Result<PlayingScene, TooManyLanes>)
        requires
            player.keyspec.wf(),
        ensures
            match r {
                Ok(scene) => fits(&player.keyspec) && scene.player == player && scene.poorlimit
                    is None && scene.gradelimit is None && scene.lanestyles@.len()
                    == player.keyspec.order@.len() && (forall|i: int|
                    0 <= i < scene.lanestyles@.len() ==> #[trigger] scene.lanestyles@[i]
                        == style_at(&player.keyspec, i)) && scene.bgay == (SCREENH - BGAH) / 2
                    && scene.bgax == scene.leftmost + (if (match scene.rightmost {
                    Some(right) => right as int,
                    None => SCREENW as int,
                }) - scene.leftmost > BGAW {
                    ((match scene.rightmost {
                        Some(right) => right as int,
                        None => SCREENW as int,
                    }) - scene.leftmost - BGAW) / 2
                } else {
                    0
                }),
                Err(_) => !fits(&player.keyspec),
            },
    {
        let (leftmost, rightmost, styles) = match build_lane_styles(&player.keyspec) {
            Ok(styles) => styles,
            Err(err) => {
                return Err(err);
            },
        };
        let right: usize = match rightmost {
            Some(right) => right,
            None => SCREENW,
        };
        let centerwidth: usize = if right > leftmost {
            right - leftmost
        } else {
            0
        };
        let room: usize = if centerwidth > BGAW as usize {
            (centerwidth - BGAW as usize) / 2
        } else {
            0
        };
        Ok(
            PlayingScene {
                player: player,
                leftmost: leftmost,
                rightmost: rightmost,
                lanestyles: styles,
                bgax: leftmost + room,
                bgay: (SCREENH - BGAH as usize) / 2,
                poorlimit: None,
                gradelimit: None,
            },
        )
    }

    /// Updates the display states after a tick of the player that goes on: the POOR BGA is
    /// displayed for 600 milliseconds after the last MISS grade, the grade for 700
    /// milliseconds after the last grade.
    pub fn update_display(&mut self)
        ensures
            final(self).player == old(self).player,
            final(self).lanestyles == old(self).lanestyles,
            final(self).poorlimit == limit_after(
                old(self).poorlimit,
                match old(self).player.tally.lastgrade {
                    Some((Grade::MISS, when)) => Some(when),
                    _ => None,
                },
                600,
                old(self).player.now,
            ),
            final(self).gradelimit == limit_after(
                old(self).gradelimit,
                match old(self).player.tally.lastgrade {
                    Some((_, when)) => Some(when),
                    None => None,
                },
                700,
                old(self).player.now,
            ),
    {
        let missed: Option<u64> = match self.player.tally.lastgrade {
            Some((Grade::MISS, when)) => Some(when),
            _ => None,
        };
        let graded: Option<u64> = match self.player.tally.lastgrade {
            Some((_, when)) => Some(when),
            None => None,
        };
        // switches to the normal BGA after 600ms
        self.poorlimit = extend_limit(self.poorlimit, missed, 600, self.player.now);
        // grade disappears after 700ms
        self.gradelimit = extend_limit(self.gradelimit, graded, 700, self.player.now);
    }

    /// Tells what follows a play that is over: the result screen if the play was by hand
    /// and the song has reached its last gradable object, the scene before otherwise.
    pub fn after_play(&self) -> (command: SceneCommand)
        ensures
            command == if self.player.opts.is_autoplay_spec() || next_of(
                self.player.timeline.objs@,
                ObjFilter { class: ObjClass::Gradable, lane: None },
                self.player.cur.start_spec(self.player.timeline.objs@),
            ) < self.player.timeline.objs@.len() {
                SceneCommand::Pop
            } else {
                SceneCommand::Replace
            },
    {
        if self.player.opts.is_autoplay() {
            return SceneCommand::Pop;
        }
        // check if the song reached the last gradable object (otherwise the game play was
        // terminated by the user)
        let gradable = ObjFilter { class: ObjClass::Gradable, lane: None };
        proof {
            crate::pointer::lemma_next_of(
                self.player.timeline.objs@,
                gradable,
                self.player.cur.start_spec(self.player.timeline.objs@),
            );
        }
        let nextgradable = self.player.cur.find_next_of_type(&self.player.timeline, gradable);
        if nextgradable.is_some() {
            return SceneCommand::Pop;
        }
        // otherwise move to the result screen
        SceneCommand::Replace
    }
}

} // verus!
