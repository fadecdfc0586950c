//! Constants of the game.

use vstd::prelude::*;

verus! {

/// Width of the screen in pixels.
pub const SCREEN_WIDTH: u32 = 1024;

/// Height of the screen in pixels.
pub const SCREEN_HEIGHT: u32 = 768;

/// Edge of a tile in pixels.
pub const TILE_SIZE: u32 = 32;

/// One world unit, in steps of the coordinate grid.
pub const UNIT: i32 = 1000;

/// Ticks in a second.
pub const TICKS_PER_SECOND: u32 = 60000;

/// Downward acceleration: a thousand units per second squared.
pub const GRAVITY: i32 = 1000000;

/// Greatest falling speed: four hundred units per second.
pub const TERMINAL_VELOCITY: i32 = 400000;

/// Frames per second the game aims at.
pub const TARGET_FPS: u32 = 60;

/// Length of one simulation step: a sixtieth of a second, in ticks.
pub const FIXED_TIMESTEP: u32 = 1000;

} // verus!
