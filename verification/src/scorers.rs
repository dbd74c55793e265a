//! Scorers: how desirable each behaviour is for an actor right now.
//!
//! A score is a whole number of thousandths between 0 and `SCORE_ONE`. Each
//! scorer first measures a penalty as a ratio, rounds it down to a whole
//! thousandth, clamps it to one, and takes it from `SCORE_ONE`. A denominator
//! below one counts as one, so a degenerate configuration never divides by
//! zero.

use vstd::prelude::*;
use crate::restless::Restlessness;
use crate::space::{dist, distance, Point};
use crate::targets::{nearest, nearest_player, Player};

verus! {

/// The score that stands for one.
pub const SCORE_ONE: u32 = 1000;

/// Restlessness, in thousandths, at which the restless score reaches
/// `SCORE_ONE`: one hundred whole units.
pub const RESTLESSNESS_FULL: i64 = 100_000;

/// Chase scorer settings. Distances are whole world units.
#[derive(Clone, Copy, Debug, PartialEq, Eq, Structural)]
pub struct Chase {
    pub trigger_distance: u64,
    pub max_distance: u64,
    pub target_distance: u64,
}

/// Shoot scorer settings. Distances are whole world units.
#[derive(Clone, Copy, Debug, PartialEq, Eq, Structural)]
pub struct Shoot {
    pub max_range: u64,
    pub too_close: u64,
    pub preferred_distance: u64,
}

/// The restless scorer; it has no settings.
#[derive(Clone, Copy, Debug, PartialEq, Eq, Structural)]
pub struct Restless;

/// `v` limited to the interval from `lo` to `hi`.
pub open spec fn clamp_int(v: int, lo: int, hi: int) -> int {
    if v < lo {
        lo
    } else if v > hi {
        hi
    } else {
        v
    }
}

/// `num / den` in thousandths, rounded down and limited to the interval from
/// zero to one thousand. A `den` below one counts as one.
pub open spec fn unit_ratio(num: int, den: int) -> int {
    let d = if den < 1 {
        1
    } else {
        den
    };
    clamp_int(num * 1000 / d, 0, 1000)
}

/// The larger of `a - b` and zero.
pub open spec fn excess(a: int, b: int) -> int {
    if a > b {
        a - b
    } else {
        0
    }
}

/// The chase penalty at distance `d`: how far outside the trigger ring the
/// target is, or how far inside the preferred ring.
pub open spec fn chase_penalty(c: Chase, d: int) -> int {
    if d > c.target_distance {
        unit_ratio(excess(d, c.trigger_distance as int), c.max_distance - c.target_distance)
    } else {
        unit_ratio(excess(c.target_distance as int, d), c.target_distance as int)
    }
}

/// The chase score at distance `d` from the nearest player.
pub open spec fn chase_score_spec(c: Chase, d: int) -> int {
    1000 - chase_penalty(c, d)
}

/// The shoot score for an actor at distance `d` from the nearest player.
/// An actor that already has a shot under way stays committed.
pub open spec fn shoot_score_spec(s: Shoot, has_shot: bool, d: int) -> int {
    if has_shot {
        1000
    } else if d < s.too_close || d > s.max_range {
        0
    } else if d > s.preferred_distance {
        1000 - unit_ratio(d - s.preferred_distance, s.max_range - s.preferred_distance)
    } else {
        1000 - unit_ratio(s.preferred_distance - d, s.preferred_distance - s.too_close)
    }
}

/// The restless score for restlessness `current`, given in thousandths of a
/// unit: `current / 100` units, limited to the interval from zero to one.
pub open spec fn restless_score_spec(current: int) -> int {
    clamp_int(current / 100, 0, 1000)
}

/// Computes `unit_ratio(num, den)` for a non-negative numerator and a
/// denominator given as the difference `hi - lo`.
fn ratio_of(num: u64, hi: u64, lo: u64) -> (r: u32)
    ensures
        r == unit_ratio(num as int, hi - lo),
        r <= SCORE_ONE,
{
    let den: u64 = if hi > lo {
        hi - lo
    } else {
        1
    };
    let scaled: u128 = num as u128 * 1000;
    let q: u128 = scaled / (den as u128);
    if q > 1000 {
        1000
    } else {
        q as u32
    }
}

/// Scores chasing for an actor whose nearest player is `d` away.
pub fn chase_score(c: &Chase, d: u64) -> (r: u32)
    ensures
        r == chase_score_spec(*c, d as int),
        r <= SCORE_ONE,
{
    let penalty: u32 = if d > c.target_distance {
        let over: u64 = if d > c.trigger_distance {
            d - c.trigger_distance
        } else {
            0
        };
        ratio_of(over, c.max_distance, c.target_distance)
    } else {
        ratio_of(c.target_distance - d, c.target_distance, 0)
    };
    SCORE_ONE - penalty
}

/// Scores shooting for an actor whose nearest player is `d` away.
pub fn shoot_score(s: &Shoot, has_shot: bool, d: u64) -> (r: u32)
    ensures
        r == shoot_score_spec(*s, has_shot, d as int),
        r <= SCORE_ONE,
{
    if has_shot {
        SCORE_ONE
    } else if d < s.too_close || d > s.max_range {
        0
    } else if d > s.preferred_distance {
        SCORE_ONE - ratio_of(d - s.preferred_distance, s.max_range, s.preferred_distance)
    } else {
        SCORE_ONE - ratio_of(s.preferred_distance - d, s.preferred_distance, s.too_close)
    }
}

/// Scores restlessness `current`, given in thousandths of a unit.
pub fn restless_score(current: i64) -> (r: u32)
    ensures
        r == restless_score_spec(current as int),
        r <= SCORE_ONE,
{
    if current <= 0 {
        0
    } else if current >= RESTLESSNESS_FULL {
        SCORE_ONE
    } else {
        (current / 100) as u32
    }
}

/// The chase score of an actor at `from`: scored on the distance to the
/// nearest player, and zero where there is no player.
pub open spec fn chase_scored(c: Chase, from: Point, players: Seq<Player>) -> int {
    match nearest(players, from) {
        Some(p) => chase_score_spec(c, dist(from, p.position) as int),
        None => 0,
    }
}

/// The shoot score of an actor at `from`: one for an actor with a shot under
/// way, else scored on the distance to the nearest player, and zero where
/// there is no player.
pub open spec fn shoot_scored(s: Shoot, from: Point, has_shot: bool, players: Seq<Player>) -> int {
    if has_shot {
        1000
    } else {
        match nearest(players, from) {
            Some(p) => shoot_score_spec(s, false, dist(from, p.position) as int),
            None => 0,
        }
    }
}

/// Scores chasing for an actor at `from` against the players of this tick.
pub fn chase_scorer_system(c: &Chase, from: Point, players: &Vec<Player>) -> (r: u32)
    ensures
        r == chase_scored(*c, from, players@),
        r <= SCORE_ONE,
{
    match nearest_player(players, from) {
        Some(p) => chase_score(c, distance(from, p.position)),
        None => 0,
    }
}

/// Scores shooting for an actor at `from` against the players of this tick.
pub fn shoot_scorer_system(
    s: &Shoot,
    from: Point,
    has_shot: bool,
    players: &Vec<Player>,
) -> (r: u32)
    ensures
        r == shoot_scored(*s, from, has_shot, players@),
        r <= SCORE_ONE,
{
    if has_shot {
        SCORE_ONE
    } else {
        match nearest_player(players, from) {
            Some(p) => shoot_score(s, false, distance(from, p.position)),
            None => 0,
        }
    }
}

/// Scores the restlessness of an actor.
pub fn restless_scorer_system(restlessness: &Restlessness) -> (r: u32)
    ensures
        r == restless_score_spec(restlessness.current_restlessness as int),
        r <= SCORE_ONE,
{
    restless_score(restlessness.current_restlessness)
}

/// Every score lies between zero and `SCORE_ONE`, whatever the settings and
/// the distance: also at distance zero and where two configured distances
/// coincide.
pub proof fn lemma_scores_in_unit_range(c: Chase, s: Shoot, has_shot: bool, d: nat, current: int)
    ensures
        0 <= chase_score_spec(c, d as int) <= 1000,
        0 <= shoot_score_spec(s, has_shot, d as int) <= 1000,
        0 <= restless_score_spec(current) <= 1000,
{
}

} // verus!
