//! Core game logic of a physics platformer in which logs fall into wood
//! chippers: player locomotion, the trunk / chipper / woodchip interaction
//! machine, the level sequencer and the particle-effect pool.
//!
//! All quantities are fixed-point integers; see [`fixed`] for the scale.
use vstd::prelude::*;

pub mod effects;
pub mod fixed;
pub mod game;
pub mod level;
pub mod mesh;
pub mod player;
pub mod random;
pub mod score;
pub mod state;
pub mod woodchips;

verus! {

} // verus!
