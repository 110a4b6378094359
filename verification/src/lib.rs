//! A small 2D rigid-body simulation core for circular bodies under uniform
//! gravity: pairwise elastic collisions, boundary containment, a sleep state
//! for bodies at rest, a frame clock with an optional rate cap, and a camera
//! mapping simulation space to presentation space.
//!
//! All quantities are integers in fixed sub-pixel units, so every contract
//! states the result exactly, rounding included.

pub mod ball;
pub mod camera;
pub mod laws;
pub mod clock;
pub mod num;
pub mod shapes;
pub mod vec2;

use vstd::prelude::*;

verus! {

} // verus!
