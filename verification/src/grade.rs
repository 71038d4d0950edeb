//! Grades and the score, combo and gauge that follow from them.
//!
//! Scores and gauges are whole numbers, and each is rounded down once. The gain for a note
//! hit at a distance is the exact product of the base score, the share of the grading area
//! that is left and the combo bonus, divided once (`distance_gain`). The gain for a weight
//! given by the caller is divided once as well (`score_gain`), but such a weight has six
//! decimal places only: `weight_of` rounds it down, so the two gains may differ by one. The
//! loss of gauge by a ratio of the full gauge is rounded down (`gauge_loss`).

use vstd::prelude::*;
use crate::obj::{Damage, UNIT, clamp_i64};

verus! {

/// Grades. The time-based grading is performed as long as possible.
#[derive(Clone, Copy, Debug, PartialEq, Eq, Structural)]
pub enum Grade {
    /// Issued when the player did not input the object at all, the player was pressing the key
    /// while a bomb passes through the corresponding lane, or failed to unpress the key within
    /// the grading area for the end of LN. Resets the combo number and decreases the gauge
    /// by severe amount (`MISS_DAMAGE` unless specified by the bomb).
    MISS,
    /// Issued when the player inputed the object and the normalized time difference between
    /// the input point and the object is between `GOOD_CUTOFF` and `BAD_CUTOFF` seconds.
    /// Resets the combo number and decreases the gauge by moderate amount (`BAD_DAMAGE`).
    BAD,
    /// Issued when the player inputed the object and the normalized time difference is between
    /// `GREAT_CUTOFF` and `GOOD_CUTOFF` seconds. Both the combo number and gauge is left
    /// unchanged.
    GOOD,
    /// Issued when the player inputed the object and the normalized time difference is between
    /// `COOL_CUTOFF` and `GREAT_CUTOFF`. The combo number is increased by one and the gauge is
    /// replenished by small amount.
    GREAT,
    /// Issued when the player inputed the object and the normalized time difference is less
    /// than `COOL_CUTOFF`. The combo number is increased by one and the gauge is replenished by
    /// large amount.
    COOL,
}

/// Required time difference in seconds to get at least COOL grade.
pub const COOL_CUTOFF: i64 = 14_400;

/// Required time difference in seconds to get at least GREAT grade.
pub const GREAT_CUTOFF: i64 = 48_000;

/// Required time difference in seconds to get at least GOOD grade.
pub const GOOD_CUTOFF: i64 = 84_000;

/// Required time difference in seconds to get at least BAD grade.
pub const BAD_CUTOFF: i64 = 144_000;

/// The number of available grades.
pub const NGRADES: usize = 5;

/// The maximum (internal) value for the gauge.
pub const MAXGAUGE: i64 = 512;

/// A base score per exact input. Actual score can increase by the combo (up to 2x) or decrease
/// by the larger time difference.
pub const SCOREPERNOTE: u64 = 300;

/// The ratio of the gauge lost to a MISS grade that no bomb caused.
pub const MISS_DAMAGE: u32 = 59_000;

/// The ratio of the gauge lost to a BAD grade.
pub const BAD_DAMAGE: u32 = 30_000;

impl Grade {
    /// The rank of the grade, from 0 for MISS to 4 for COOL.
    pub open spec fn ordinal_spec(self) -> int {
        match self {
            Grade::MISS => 0,
            Grade::BAD => 1,
            Grade::GOOD => 2,
            Grade::GREAT => 3,
            Grade::COOL => 4,
        }
    }

    /// The grade for a normalized time difference.
    pub open spec fn of_distance(dist: int) -> Grade {
        let d = if dist < 0 {
            -dist
        } else {
            dist
        };
        if d < COOL_CUTOFF {
            Grade::COOL
        } else if d < GREAT_CUTOFF {
            Grade::GREAT
        } else if d < GOOD_CUTOFF {
            Grade::GOOD
        } else if d < BAD_CUTOFF {
            Grade::BAD
        } else {
            Grade::MISS
        }
    }

    /// The damage that comes with the grade for a time difference.
    pub open spec fn damage_spec(self) -> Option<Damage> {
        match self {
            Grade::MISS => Some(Damage::GaugeDamage(MISS_DAMAGE)),
            Grade::BAD => Some(Damage::GaugeDamage(BAD_DAMAGE)),
            _ => None,
        }
    }

    /// Returns the rank of the grade, from 0 for MISS to 4 for COOL.
    pub fn ordinal(self) -> (i: usize)
        ensures
            i == self.ordinal_spec(),
            i < NGRADES,
    {
        match self {
            Grade::MISS => 0,
            Grade::BAD => 1,
            Grade::GOOD => 2,
            Grade::GREAT => 3,
            Grade::COOL => 4,
        }
    }
}

/// The score gained by an input at a normalized time difference at the given combo:
/// `SCOREPERNOTE` at no difference, falling in a straight line to nothing at `BAD_CUTOFF` and
/// beyond, raised by the ratio of the combo to the number of notes. A chart without notes
/// gives no raise. The quotient is taken once, of the whole product, and rounded down.
pub open spec fn distance_gain(dist: int, combo: int, nnotes: int) -> int {
    let d = if dist < 0 {
        -dist
    } else {
        dist
    };
    if d >= BAD_CUTOFF {
        0
    } else if nnotes <= 0 {
        (BAD_CUTOFF - d) * SCOREPERNOTE / (BAD_CUTOFF as int)
    } else {
        (BAD_CUTOFF - d) * SCOREPERNOTE * (nnotes + combo) / (BAD_CUTOFF * nnotes)
    }
}

/// The weight of an input at a normalized time difference: 1 at no difference, falling in
/// a straight line to 0 at `BAD_CUTOFF` and beyond, rounded down to six decimal places.
pub open spec fn weight_of_distance(dist: int) -> int {
    let d = if dist < 0 {
        -dist
    } else {
        dist
    };
    if d >= BAD_CUTOFF {
        0
    } else {
        (BAD_CUTOFF - d) * UNIT / (BAD_CUTOFF as int)
    }
}

/// The score gained by an input of the given weight at the given combo: the weight times
/// `SCOREPERNOTE`, raised by the ratio of the combo to the number of notes. A chart without
/// notes gives no raise. The quotient is rounded down.
pub open spec fn score_gain(weight: int, combo: int, nnotes: int) -> int {
    if nnotes <= 0 {
        weight * SCOREPERNOTE / (UNIT as int)
    } else {
        weight * SCOREPERNOTE * (nnotes + combo) / (UNIT * nnotes)
    }
}

/// The part of the gauge that a ratio of it comes to, rounded down.
pub open spec fn gauge_loss(ratio: u32) -> int {
    MAXGAUGE * ratio / (UNIT as int)
}

/// The counters that grading keeps.
#[derive(Clone, Copy, Debug, PartialEq, Eq)]
pub struct Tally {
    /// The last grade and time when the grade is issued.
    pub lastgrade: Option<(Grade, u64)>,
    /// The numbers of MISS grades.
    pub misses: usize,
    /// The numbers of BAD grades.
    pub bads: usize,
    /// The numbers of GOOD grades.
    pub goods: usize,
    /// The numbers of GREAT grades.
    pub greats: usize,
    /// The numbers of COOL grades.
    pub cools: usize,
    /// The last combo number, i.e. the number of objects graded at least GREAT. GOOD doesn't
    /// cause the combo number reset; BAD and MISS do.
    pub lastcombo: usize,
    /// The best combo number so far.
    pub bestcombo: usize,
    /// The current score.
    pub score: u64,
    /// The current health gauge. Should be no larger than `MAXGAUGE`. This can go negative,
    /// which will require players much more efforts to survive.
    pub gauge: i64,
}

/// A count raised by one, unless it is the largest that there is.
pub open spec fn bump(n: usize) -> usize {
    if n < usize::MAX {
        (n + 1) as usize
    } else {
        n
    }
}

impl Tally {
    /// The number of grades of the given kind.
    pub open spec fn count_spec(self, grade: Grade) -> usize {
        match grade {
            Grade::MISS => self.misses,
            Grade::BAD => self.bads,
            Grade::GOOD => self.goods,
            Grade::GREAT => self.greats,
            Grade::COOL => self.cools,
        }
    }

    /// The counters after one more grade of the given kind.
    pub open spec fn counted(self, grade: Grade) -> Tally {
        match grade {
            Grade::MISS => Tally { misses: bump(self.misses), ..self },
            Grade::BAD => Tally { bads: bump(self.bads), ..self },
            Grade::GOOD => Tally { goods: bump(self.goods), ..self },
            Grade::GREAT => Tally { greats: bump(self.greats), ..self },
            Grade::COOL => Tally { cools: bump(self.cools), ..self },
        }
    }

    /// The combo after the grade: one more for GREAT and COOL, none for MISS and BAD.
    pub open spec fn combo_after(self, grade: Grade) -> usize {
        match grade {
            Grade::MISS => 0,
            Grade::BAD => 0,
            Grade::GOOD => self.lastcombo,
            _ => bump(self.lastcombo),
        }
    }

    /// The gauge after the grade, before any damage: GREAT and COOL replenish it by 2 and 3
    /// and by one more for each 50 of the combo, up to 100, and never beyond `MAXGAUGE`.
    pub open spec fn gauge_after(self, grade: Grade) -> int {
        let bonus = if self.lastcombo >= 100 {
            2int
        } else if self.lastcombo >= 50 {
            1int
        } else {
            0int
        };
        let raised = match grade {
            Grade::GREAT => self.gauge + 2 + bonus,
            Grade::COOL => self.gauge + 3 + bonus,
            _ => self.gauge as int,
        };
        match grade {
            Grade::GREAT | Grade::COOL => if raised > MAXGAUGE {
                MAXGAUGE as int
            } else {
                raised
            },
            _ => raised,
        }
    }

    /// The counters after a grade issued at time `now` with the given gain of score and the
    /// given damage. The score stops at the largest that there is.
    pub open spec fn scored(self, grade: Grade, gain: int, damage: Option<Damage>, now: u64) -> Tally {
        let counted = self.counted(grade);
        let score = if self.score + gain > u64::MAX {
            u64::MAX
        } else {
            (self.score + gain) as u64
        };
        let combo = self.combo_after(grade);
        let gauge = self.gauge_after(grade);
        Tally {
            lastgrade: Some((grade, now)),
            score: score,
            lastcombo: combo,
            bestcombo: if self.bestcombo >= combo {
                self.bestcombo
            } else {
                combo
            },
            gauge: match damage {
                Some(Damage::GaugeDamage(ratio)) => clamp_i64(gauge - gauge_loss(ratio)) as i64,
                Some(Damage::InstantDeath) => if gauge < 0 {
                    gauge as i64
                } else {
                    0i64
                },
                None => gauge as i64,
            },
            ..counted
        }
    }

    /// The counters after a grade issued at time `now` with the given weight and damage.
    pub open spec fn graded(self, grade: Grade, scoredelta: i64, damage: Option<Damage>, now: u64, nnotes: usize) -> Tally {
        self.scored(
            grade,
            score_gain(scoredelta as int, self.lastcombo as int, nnotes as int),
            damage,
            now,
        )
    }

    /// The counters after the grade for a normalized time difference, issued at time `now`:
    /// the grade by the cutoffs, the score by the distance, the damage of the grade.
    pub open spec fn graded_by_distance(self, dist: i64, now: u64, nnotes: usize) -> Tally {
        self.scored(
            Grade::of_distance(dist as int),
            distance_gain(dist as int, self.lastcombo as int, nnotes as int),
            Grade::of_distance(dist as int).damage_spec(),
            now,
        )
    }

    /// True if the best combo is at least the last combo and the gauge is at most `MAXGAUGE`.
    pub open spec fn sound(self) -> bool {
        self.bestcombo >= self.lastcombo && self.gauge <= MAXGAUGE
    }

    /// The counters at the beginning of a play: nothing graded, the gauge half full.
    pub open spec fn initial() -> Tally {
        Tally {
            lastgrade: None,
            misses: 0,
            bads: 0,
            goods: 0,
            greats: 0,
            cools: 0,
            lastcombo: 0,
            bestcombo: 0,
            score: 0,
            gauge: 256,
        }
    }

    /// Returns the counters at the beginning of a play.
    pub fn new() -> (t: Tally)
        ensures
            t == Tally::initial(),
    {
        Tally {
            lastgrade: None,
            misses: 0,
            bads: 0,
            goods: 0,
            greats: 0,
            cools: 0,
            lastcombo: 0,
            bestcombo: 0,
            score: 0,
            gauge: MAXGAUGE * 500 / 1000,
        }
    }

    /// Returns the number of grades of the given kind.
    pub fn count(&self, grade: Grade) -> (n: usize)
        ensures
            n == self.count_spec(grade),
    {
        match grade {
            Grade::MISS => self.misses,
            Grade::BAD => self.bads,
            Grade::GOOD => self.goods,
            Grade::GREAT => self.greats,
            Grade::COOL => self.cools,
        }
    }

    /// Takes a grade with its gain of score and its damage into the counters. Returns false
    /// when the damage resulted in the instant death.
    fn take(&mut self, grade: Grade, gain: u128, damage: Option<Damage>, now: u64) -> (keepgoing:
        bool)
        ensures
            *final(self) == old(self).scored(grade, gain as int, damage, now),
            keepgoing == !(damage == Some(Damage::InstantDeath)),
            final(self).bestcombo >= final(self).lastcombo,
            old(self).gauge <= MAXGAUGE ==> final(self).gauge <= MAXGAUGE,
    {
        match grade {
            Grade::MISS => {
                self.misses = bump_count(self.misses);
            },
            Grade::BAD => {
                self.bads = bump_count(self.bads);
            },
            Grade::GOOD => {
                self.goods = bump_count(self.goods);
            },
            Grade::GREAT => {
                self.greats = bump_count(self.greats);
            },
            Grade::COOL => {
                self.cools = bump_count(self.cools);
            },
        }
        self.lastgrade = Some((grade, now));
        self.score = if gain > (u64::MAX - self.score) as u128 {
            u64::MAX
        } else {
            self.score + gain as u64
        };
        match grade {
            Grade::MISS | Grade::BAD => {
                self.lastcombo = 0;
            },
            Grade::GOOD => {},
            Grade::GREAT | Grade::COOL => {
                // at most 5/512(1%) recover when the combo is topped
                let weight: i128 = match grade {
                    Grade::GREAT => 2,
                    _ => 3,
                };
                let capped: usize = if self.lastcombo < 100 {
                    self.lastcombo
                } else {
                    100
                };
                let cmbbonus: i128 = (capped / 50) as i128;
                self.lastcombo = bump_count(self.lastcombo);
                let raised: i128 = self.gauge as i128 + weight + cmbbonus;
                self.gauge = if raised > MAXGAUGE as i128 {
                    MAXGAUGE
                } else {
                    raised as i64
                };
            },
        }
        if self.bestcombo < self.lastcombo {
            self.bestcombo = self.lastcombo;
        }
        match damage {
            Some(Damage::GaugeDamage(ratio)) => {
                let loss: i128 = (MAXGAUGE as i128) * (ratio as i128) / (UNIT as i128);
                let left: i128 = self.gauge as i128 - loss;
                self.gauge = if left < i64::MIN as i128 {
                    i64::MIN
                } else {
                    left as i64
                };
                true
            },
            Some(Damage::InstantDeath) => {
                if self.gauge > 0 {
                    self.gauge = 0;
                }
                false
            },
            None => true,
        }
    }

    /// Updates the score and associated statistics according to grading. `scoredelta` is
    /// a weight normalized to [0,1] that is calculated from the distance between the object
    /// and the input time, and `damage` is an optionally associated `Damage` value for bombs.
    /// Returns false when `Damage` resulted in the instant death.
    pub fn update_grade(
        &mut self,
        grade: Grade,
        scoredelta: i64,
        damage: Option<Damage>,
        now: u64,
        nnotes: usize,
    ) -> (keepgoing: bool)
        requires
            0 <= scoredelta <= UNIT,
        ensures
            *final(self) == old(self).graded(grade, scoredelta, damage, now, nnotes),
            keepgoing == !(damage == Some(Damage::InstantDeath)),
            final(self).bestcombo >= final(self).lastcombo,
            old(self).gauge <= MAXGAUGE ==> final(self).gauge <= MAXGAUGE,
    {
        let gain: u128 = score_for(scoredelta, self.lastcombo, nnotes);
        self.take(grade, gain, damage, now)
    }

    /// Same as `update_grade`, but the grade is calculated from the normalized difference
    /// between the object and input time in seconds, and so is the score, straight from the
    /// difference.
    pub fn update_grade_from_distance(&mut self, dist: i64, now: u64, nnotes: usize)
        ensures
            *final(self) == old(self).graded_by_distance(dist, now, nnotes),
            final(self).bestcombo >= final(self).lastcombo,
            old(self).gauge <= MAXGAUGE ==> final(self).gauge <= MAXGAUGE,
    {
        let grade = grade_of(dist);
        let damage = match grade {
            Grade::MISS => Some(Damage::GaugeDamage(MISS_DAMAGE)),
            Grade::BAD => Some(Damage::GaugeDamage(BAD_DAMAGE)),
            _ => None,
        };
        let gain: u128 = score_at(dist, self.lastcombo, nnotes);
        self.take(grade, gain, damage, now);
    }

    /// Same as `update_grade`, but with the predetermined damage value. Always results in MISS
    /// grade. Returns false when the damage resulted in the instant death.
    pub fn update_grade_from_damage(&mut self, damage: Damage, now: u64, nnotes: usize) -> (keepgoing:
        bool)
        ensures
            *final(self) == old(self).graded(Grade::MISS, 0, Some(damage), now, nnotes),
            keepgoing == !(damage is InstantDeath),
            final(self).bestcombo >= final(self).lastcombo,
            old(self).gauge <= MAXGAUGE ==> final(self).gauge <= MAXGAUGE,
    {
        self.update_grade(Grade::MISS, 0, Some(damage), now, nnotes)
    }

    /// Same as `update_grade`, but always results in MISS grade with the standard damage value.
    pub fn update_grade_to_miss(&mut self, now: u64, nnotes: usize)
        ensures
            *final(self) == old(self).graded(
                Grade::MISS,
                0,
                Some(Damage::GaugeDamage(MISS_DAMAGE)),
                now,
                nnotes,
            ),
            final(self).bestcombo >= final(self).lastcombo,
            old(self).gauge <= MAXGAUGE ==> final(self).gauge <= MAXGAUGE,
    {
        self.update_grade(Grade::MISS, 0, Some(Damage::GaugeDamage(MISS_DAMAGE)), now, nnotes);
    }
}

/// Raises a count by one, unless it is the largest that there is.
pub fn bump_count(n: usize) -> (r: usize)
    ensures
        r == bump(n),
{
    if n < usize::MAX {
        n + 1
    } else {
        n
    }
}

/// Returns the grade for a normalized time difference.
pub fn grade_of(dist: i64) -> (grade: Grade)
    ensures
        grade == Grade::of_distance(dist as int),
{
    let d: i128 = if dist < 0 {
        -(dist as i128)
    } else {
        dist as i128
    };
    if d < COOL_CUTOFF as i128 {
        Grade::COOL
    } else if d < GREAT_CUTOFF as i128 {
        Grade::GREAT
    } else if d < GOOD_CUTOFF as i128 {
        Grade::GOOD
    } else if d < BAD_CUTOFF as i128 {
        Grade::BAD
    } else {
        Grade::MISS
    }
}

/// Returns the weight of an input at a normalized time difference.
pub fn weight_of(dist: i64) -> (w: i64)
    ensures
        w == weight_of_distance(dist as int),
        0 <= w <= UNIT,
{
    let d: i128 = if dist < 0 {
        -(dist as i128)
    } else {
        dist as i128
    };
    if d >= BAD_CUTOFF as i128 {
        0
    } else {
        let left: i64 = BAD_CUTOFF - d as i64;
        left * UNIT / BAD_CUTOFF
    }
}

/// Returns the score gained by an input at a normalized time difference at the given combo.
pub fn score_at(dist: i64, combo: usize, nnotes: usize) -> (gain: u128)
    ensures
        gain == distance_gain(dist as int, combo as int, nnotes as int),
{
    let d: i128 = if dist < 0 {
        -(dist as i128)
    } else {
        dist as i128
    };
    if d >= BAD_CUTOFF as i128 {
        return 0;
    }
    let left: u128 = (BAD_CUTOFF as i128 - d) as u128;
    let base: u128 = left * (SCOREPERNOTE as u128);
    if nnotes == 0 {
        base / (BAD_CUTOFF as u128)
    } else {
        let raise: u128 = nnotes as u128 + combo as u128;
        assert(base * raise <= 43_200_000 * 0x2_0000_0000_0000_0000) by (nonlinear_arith)
            requires
                0 <= base <= 43_200_000,
                0 <= raise <= 0x2_0000_0000_0000_0000,
        ;
        assert((BAD_CUTOFF as u128) * (nnotes as u128) <= 144_000 * 0x1_0000_0000_0000_0000)
            by (nonlinear_arith)
            requires
                0 <= nnotes <= 0x1_0000_0000_0000_0000,
                BAD_CUTOFF == 144_000,
        ;
        assert(left * SCOREPERNOTE * (nnotes + combo) == base * raise) by (nonlinear_arith)
            requires
                base == left * SCOREPERNOTE,
                raise == nnotes + combo,
        ;
        let den: u128 = (BAD_CUTOFF as u128) * (nnotes as u128);
        assert(den >= 1) by (nonlinear_arith)
            requires
                den == BAD_CUTOFF * nnotes,
                nnotes >= 1,
                BAD_CUTOFF == 144_000,
        ;
        base * raise / den
    }
}

/// Returns the score gained by an input of the given weight at the given combo.
pub fn score_for(weight: i64, combo: usize, nnotes: usize) -> (gain: u128)
    requires
        0 <= weight <= UNIT,
    ensures
        gain == score_gain(weight as int, combo as int, nnotes as int),
        gain <= 300_000_000 * 0x2_0000_0000_0000_0000,
{
    let base: u128 = (weight as u128) * (SCOREPERNOTE as u128);
    if nnotes == 0 {
        base / (UNIT as u128)
    } else {
        let raise: u128 = nnotes as u128 + combo as u128;
        assert(base * raise <= 300_000_000 * 0x2_0000_0000_0000_0000) by (nonlinear_arith)
            requires
                0 <= base <= 300_000_000,
                0 <= raise <= 0x2_0000_0000_0000_0000,
        ;
        assert((UNIT as u128) * (nnotes as u128) <= 1_000_000 * 0x1_0000_0000_0000_0000)
            by (nonlinear_arith)
            requires
                0 <= nnotes <= 0x1_0000_0000_0000_0000,
                UNIT == 1_000_000,
        ;
        assert(weight * SCOREPERNOTE * (nnotes + combo) == base * raise) by (nonlinear_arith)
            requires
                base == weight * SCOREPERNOTE,
                raise == nnotes + combo,
        ;
        let den: u128 = (UNIT as u128) * (nnotes as u128);
        assert(den >= 1) by (nonlinear_arith)
            requires
                den == UNIT * nnotes,
                nnotes >= 1,
                UNIT == 1_000_000,
        ;
        let num: u128 = base * raise;
        assert(num / den <= num) by (nonlinear_arith)
            requires
                num >= 0,
                den >= 1,
        ;
        num / den
    }
}

/// Grading is monotone in distance: of two normalized time differences, the one of the
/// smaller magnitude never gets the worse grade.
pub proof fn lemma_grading_monotone(near: int, far: int)
    requires
        (if near < 0 {
            -near
        } else {
            near
        }) <= (if far < 0 {
            -far
        } else {
            far
        }),
    ensures
        Grade::of_distance(near).ordinal_spec() >= Grade::of_distance(far).ordinal_spec(),
{
}

/// After any grade, whatever the score gained, the best combo is at least the last combo and
/// at least what it was; the last combo is none after MISS and BAD, what it was after GOOD
/// and one more after GREAT and COOL.
pub proof fn lemma_best_combo(t: Tally, grade: Grade, gain: int, damage: Option<Damage>, now: u64)
    ensures
        t.scored(grade, gain, damage, now).bestcombo >= t.scored(grade, gain, damage, now).lastcombo,
        t.scored(grade, gain, damage, now).bestcombo >= t.bestcombo,
        t.scored(grade, gain, damage, now).lastcombo == match grade {
            Grade::MISS => 0usize,
            Grade::BAD => 0usize,
            Grade::GOOD => t.lastcombo,
            _ => bump(t.lastcombo),
        },
{
}

/// A gauge that is not above `MAXGAUGE` is not above it after any grade, whatever the score
/// gained, and instant death leaves none of it.
pub proof fn lemma_gauge_clamped(t: Tally, grade: Grade, gain: int, damage: Option<Damage>, now: u64)
    requires
        t.gauge <= MAXGAUGE,
    ensures
        t.scored(grade, gain, damage, now).gauge <= MAXGAUGE,
        damage == Some(Damage::InstantDeath) ==> t.scored(grade, gain, damage, now).gauge <= 0,
{
    match damage {
        Some(Damage::GaugeDamage(ratio)) => {
            assert(gauge_loss(ratio) >= 0) by (nonlinear_arith)
                requires
                    gauge_loss(ratio) == MAXGAUGE * ratio / (UNIT as int),
                    ratio >= 0,
                    MAXGAUGE == 512,
                    UNIT == 1_000_000,
            ;
        },
        _ => {},
    }
}

/// The best combo is at least the last combo and never falls, and a gauge that is not above
/// `MAXGAUGE` stays so: after a grade by a weight, whatever the weight, in or out of the range
/// from 0 to 1, and after a grade by a time difference, whatever the difference.
pub proof fn lemma_counters_stay_sound(
    t: Tally,
    grade: Grade,
    scoredelta: i64,
    dist: i64,
    damage: Option<Damage>,
    now: u64,
    nnotes: usize,
)
    ensures
        t.graded(grade, scoredelta, damage, now, nnotes).bestcombo >= t.graded(
            grade,
            scoredelta,
            damage,
            now,
            nnotes,
        ).lastcombo,
        t.graded(grade, scoredelta, damage, now, nnotes).bestcombo >= t.bestcombo,
        t.graded_by_distance(dist, now, nnotes).bestcombo >= t.graded_by_distance(
            dist,
            now,
            nnotes,
        ).lastcombo,
        t.graded_by_distance(dist, now, nnotes).bestcombo >= t.bestcombo,
        t.gauge <= MAXGAUGE ==> t.graded(grade, scoredelta, damage, now, nnotes).gauge <= MAXGAUGE
            && t.graded_by_distance(dist, now, nnotes).gauge <= MAXGAUGE,
        t.sound() ==> t.graded(grade, scoredelta, damage, now, nnotes).sound()
            && t.graded_by_distance(dist, now, nnotes).sound(),
{
    lemma_best_combo(
        t,
        grade,
        score_gain(scoredelta as int, t.lastcombo as int, nnotes as int),
        damage,
        now,
    );
    lemma_best_combo(
        t,
        Grade::of_distance(dist as int),
        distance_gain(dist as int, t.lastcombo as int, nnotes as int),
        Grade::of_distance(dist as int).damage_spec(),
        now,
    );
    if t.gauge <= MAXGAUGE {
        lemma_gauge_clamped(
            t,
            grade,
            score_gain(scoredelta as int, t.lastcombo as int, nnotes as int),
            damage,
            now,
        );
        lemma_gauge_clamped(
            t,
            Grade::of_distance(dist as int),
            distance_gain(dist as int, t.lastcombo as int, nnotes as int),
            Grade::of_distance(dist as int).damage_spec(),
            now,
        );
    }
}

/// The score gained at a time difference is never more than the score gained at a smaller
/// one, and at no difference it is `SCOREPERNOTE` raised by the combo.
pub proof fn lemma_gain_monotone(near: int, far: int, combo: int, nnotes: int)
    requires
        0 <= near <= far,
        0 <= combo,
    ensures
        distance_gain(near, combo, nnotes) >= distance_gain(far, combo, nnotes) >= 0,
        nnotes > 0 ==> distance_gain(0, combo, nnotes) == SCOREPERNOTE * (nnotes + combo) / nnotes,
        nnotes <= 0 ==> distance_gain(0, combo, nnotes) == SCOREPERNOTE,
{
    if far < BAD_CUTOFF {
        let a = (BAD_CUTOFF - near) * SCOREPERNOTE;
        let b = (BAD_CUTOFF - far) * SCOREPERNOTE;
        if nnotes <= 0 {
            assert(a / (BAD_CUTOFF as int) >= b / (BAD_CUTOFF as int) >= 0) by (nonlinear_arith)
                requires
                    a >= b >= 0,
                    BAD_CUTOFF == 144_000,
            ;
        } else {
            let k = nnotes + combo;
            let den = BAD_CUTOFF * nnotes;
            assert(a * k >= b * k >= 0) by (nonlinear_arith)
                requires
                    a >= b >= 0,
                    k >= 0,
            ;
            assert(den > 0) by (nonlinear_arith)
                requires
                    den == BAD_CUTOFF * nnotes,
                    nnotes > 0,
                    BAD_CUTOFF == 144_000,
            ;
            assert((a * k) / den >= (b * k) / den >= 0) by (nonlinear_arith)
                requires
                    a * k >= b * k >= 0,
                    den > 0,
            ;
        }
    } else if near < BAD_CUTOFF {
        let a = (BAD_CUTOFF - near) * SCOREPERNOTE;
        if nnotes <= 0 {
            assert(a / (BAD_CUTOFF as int) >= 0) by (nonlinear_arith)
                requires
                    a >= 0,
                    BAD_CUTOFF == 144_000,
            ;
        } else {
            let k = nnotes + combo;
            let den = BAD_CUTOFF * nnotes;
            assert(a * k >= 0) by (nonlinear_arith)
                requires
                    a >= 0,
                    k >= 0,
            ;
            assert(den > 0) by (nonlinear_arith)
                requires
                    den == BAD_CUTOFF * nnotes,
                    nnotes > 0,
                    BAD_CUTOFF == 144_000,
            ;
            assert((a * k) / den >= 0) by (nonlinear_arith)
                requires
                    a * k >= 0,
                    den > 0,
            ;
        }
    }
    if nnotes > 0 {
        let k = nnotes + combo;
        assert(BAD_CUTOFF * SCOREPERNOTE * k / (BAD_CUTOFF * nnotes) == SCOREPERNOTE * k / nnotes)
            by (nonlinear_arith)
            requires
                nnotes > 0,
                BAD_CUTOFF == 144_000,
                SCOREPERNOTE == 300,
                k >= 0,
        ;
    }
}

} // verus!
