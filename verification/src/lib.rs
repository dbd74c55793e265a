//! Decision and activation engine for the hostile actors of a real-time game.

pub mod space;
pub mod targets;
pub mod scorers;
pub mod restless;
pub mod movement;
pub mod actions;
pub mod picker;
pub mod thinker;
pub mod records;
pub mod store;
pub mod grid;
pub mod archetypes;
pub mod chance;
pub mod danger;
pub mod schedule;
pub mod tick;
