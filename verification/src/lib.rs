//! Simulation core of a side-scrolling reflex game: a bird falls under
//! gravity, the player applies upward impulses, pipe pairs scroll toward the
//! bird with a randomized gap, and the run ends when the bird collides with a
//! pipe or falls below the playfield.
//!
//! All quantities are fixed-point integers so that every frame is exact:
//! positions are in millionths of a pixel, vertical velocity in thousandths
//! of a velocity unit, and time in whole milliseconds.

pub mod bird;
pub mod consts;
pub mod geom;
pub mod pipes;
pub mod state;
pub mod timer;
pub mod world;

use vstd::prelude::*;

verus! {

} // verus!
