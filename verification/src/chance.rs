//! The one place where chance enters: the direction a meander sets out in.

use vstd::prelude::*;
use bevy_turborand::{DelegatedRng, GlobalRng};
use crate::movement::{within_unit, Moving};

verus! {

/// The random number generator that the host keeps as a resource.
#[verifier::external_type_specification]
#[verifier::external_body]
pub struct ExGlobalRng(GlobalRng);

/// Draws a number with `DelegatedRng::i32`, which returns a value of the
/// inclusive range it is given and fails on an empty range. Which value comes
/// is left open.
#[verifier::external_body]
fn draw_between(rng: &mut GlobalRng, lo: i32, hi: i32) -> (r: i32)
    requires
        lo <= hi,
    ensures
        lo <= r <= hi,
{
    rng.i32(lo..=hi)
}

/// Draws a direction whose components each lie between -1000 and 1000
/// thousandths.
pub fn random_direction(rng: &mut GlobalRng) -> (r: Moving)
    ensures
        within_unit(r),
{
    let dx: i32 = draw_between(rng, -1000, 1000);
    let dy: i32 = draw_between(rng, -1000, 1000);
    Moving { dx, dy }
}

} // verus!
