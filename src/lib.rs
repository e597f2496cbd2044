//! Checkpoint and restore of a long-running simulation's state.
//!
//! Floating-point quantities (times and the state vector) are held here as
//! their IEEE-754 binary64 bit patterns, so that the library carries them
//! faithfully without computing with them.
pub mod schedule;
pub mod naming;
pub mod error;
pub mod state;
