//! Game-state engine for a grid-based snake arcade game.
//!
//! The engine owns the discrete coordinate model, snake movement and
//! growth, collision detection, food placement and direction-change
//! validation.  Rendering and input live outside the library and only
//! exchange plain values with it.

use vstd::prelude::*;

pub mod direction;
pub mod engine;
pub mod food;
pub mod grid;
pub mod position;
mod rng;
pub mod snake;

verus! {

/// Side length of one grid cell, in pixels.
pub const SQUARE_SIZE: i16 = 9;

/// Width of the playing field, in pixels.
pub const WINDOW_WIDTH_SIZE: i16 = 300;

/// Height of the playing field, in pixels.
pub const WINDOW_HEIGHT_SIZE: i16 = 300;

} // verus!
