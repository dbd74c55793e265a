//! Restlessness: an energy level that rises while an actor is live and is
//! spent by wandering.
//!
//! The level is kept in thousandths of a unit, so a rate in units per second
//! times a step in milliseconds adds to it without rounding. It has neither
//! floor nor cap other than the range of `i64`, at whose ends it stays.

use vstd::prelude::*;

verus! {

/// The restlessness of one live actor.
#[derive(Clone, Copy, Debug, PartialEq, Eq, Structural)]
pub struct Restlessness {
    /// Units gained per second.
    pub per_second: i64,
    /// Current level, in thousandths of a unit. May be negative.
    pub current_restlessness: i64,
}

/// `v` limited to the range of `i64`.
pub open spec fn saturate(v: int) -> int {
    if v < i64::MIN {
        i64::MIN as int
    } else if v > i64::MAX {
        i64::MAX as int
    } else {
        v
    }
}

/// The level after `dt` milliseconds of passive accumulation.
pub open spec fn accumulated(r: Restlessness, dt: int) -> int {
    saturate(r.current_restlessness + r.per_second * dt)
}

/// The level after `dt` milliseconds of spending at `rate` units per second
/// on top of cancelling the passive gain.
pub open spec fn drained(r: Restlessness, rate: int, dt: int) -> int {
    saturate(r.current_restlessness - (rate + r.per_second) * dt)
}

/// Limits a wide intermediate result to the range of `i64`.
fn saturate_to_i64(v: i128) -> (r: i64)
    ensures
        r == saturate(v as int),
{
    if v < i64::MIN as i128 {
        i64::MIN
    } else if v > i64::MAX as i128 {
        i64::MAX
    } else {
        v as i64
    }
}

impl Restlessness {
    /// A fresh level of zero that will rise by `per_second` units each second.
    pub fn new(per_second: i64) -> (r: Restlessness)
        ensures
            r.per_second == per_second,
            r.current_restlessness == 0,
    {
        Restlessness { per_second, current_restlessness: 0 }
    }

    /// Lets `dt` milliseconds pass: the level rises by `per_second * dt`.
    pub fn accumulate(&mut self, dt: u32)
        ensures
            final(self).per_second == old(self).per_second,
            final(self).current_restlessness == accumulated(*old(self), dt as int),
    {
        assert(-0x8000_0000_0000_0000 * 0x1_0000_0000 <= self.per_second * dt
            <= 0x8000_0000_0000_0000 * 0x1_0000_0000) by (nonlinear_arith)
            requires
                -0x8000_0000_0000_0000 <= self.per_second < 0x8000_0000_0000_0000,
                0 <= dt < 0x1_0000_0000,
        ;
        let gain: i128 = self.per_second as i128 * dt as i128;
        self.current_restlessness = saturate_to_i64(self.current_restlessness as i128 + gain);
    }

    /// Spends restlessness for `dt` milliseconds at `rate` units per second
    /// on top of the passive gain: the level falls by
    /// `(rate + per_second) * dt`.
    pub fn drain(&mut self, rate: i64, dt: u32)
        ensures
            final(self).per_second == old(self).per_second,
            final(self).current_restlessness == drained(*old(self), rate as int, dt as int),
    {
        let total: i128 = rate as i128 + self.per_second as i128;
        assert(-0x1_0000_0000_0000_0000 * 0x1_0000_0000 <= total * dt
            <= 0x1_0000_0000_0000_0000 * 0x1_0000_0000) by (nonlinear_arith)
            requires
                -0x1_0000_0000_0000_0000 <= total <= 0x1_0000_0000_0000_0000,
                0 <= dt < 0x1_0000_0000,
        ;
        let loss: i128 = total * dt as i128;
        self.current_restlessness = saturate_to_i64(self.current_restlessness as i128 - loss);
    }
}

} // verus!
