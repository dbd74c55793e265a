//! The stages of one simulation tick, in the order in which they run.
//!
//! Activation comes first, so that an actor promoted in a tick takes part in
//! that tick's decisions. Scoring and thinking come before the actions they
//! select, and retirement comes last.

use vstd::prelude::*;

verus! {

/// The stage in which pending actors near the players become live.
#[derive(Clone, Copy, Debug, PartialEq, Eq, Hash, Structural)]
pub struct InGamePreUpdate;

/// The stage in which restlessness accumulates and exempt actors have their
/// age reset.
#[derive(Clone, Copy, Debug, PartialEq, Eq, Hash, Structural)]
pub struct InGameUpdate;

/// The stage in which every live actor's choices are scored and its thinker
/// settles on an action.
#[derive(Clone, Copy, Debug, PartialEq, Eq, Hash, Structural)]
pub struct InGameScorers;

/// The stage in which every live actor's current action runs.
#[derive(Clone, Copy, Debug, PartialEq, Eq, Hash, Structural)]
pub struct InGameActions;

} // verus!
