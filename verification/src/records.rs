//! The kinds of hostile actor and the record a pending actor leaves in the
//! grid.

use vstd::prelude::*;
use crate::space::Point;

verus! {

/// The kinds of hostile actor.
#[derive(Clone, Copy, Debug, PartialEq, Eq, Structural)]
pub enum DangerType {
    HolyHulk,
    StealthySeraphim,
    GuardianAngel,
    AngelicArcher,
    DivineDetonator,
    LumberingDevil,
}

/// A pending actor as the grid records it: its handle, where it was last
/// seen, and its kind.
#[derive(Clone, Copy, Debug)]
pub struct DangerInGrid {
    pub actor: u64,
    pub position: Point,
    pub kind: DangerType,
}

} // verus!
