//! Core logic of a small physics toy: a closed ring of fixed collider
//! segments encloses bouncing balls, and every collision between a ball and
//! the ring may spawn one new ball, gated by a per-ball cooldown.
//!
//! The library models the reactive spawn control: ring geometry, ball
//! construction, cooldown state, and collision-event dispatch. The physics
//! solver and the rendering pipeline are external collaborators; they are
//! driven from an ordinary (unverified) front end that feeds this library
//! plain values.

pub mod config;
pub mod cooldown;
pub mod ring;
pub mod ball;
pub mod reactor;
pub mod rng;

use vstd::prelude::*;

verus! {

/// Duration (milliseconds) a ball must wait between two spawns it triggers.
pub const DEFAULT_COOLDOWN_MS: u64 = 200;

} // verus!
