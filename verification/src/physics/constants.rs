//! Numbers that suit a platformer.

use vstd::prelude::*;

verus! {

/// Gravity: 980 units per second squared.
pub const PLATFORMER_GRAVITY: i32 = 980000;

/// Velocity at the start of a jump; up is negative.
pub const JUMP_VELOCITY: i32 = -400000;

/// Walking speed.
pub const WALK_SPEED: i32 = 150000;

/// Running speed.
pub const RUN_SPEED: i32 = 250000;

/// How much of its control a character keeps in the air.
pub const AIR_CONTROL: i32 = 800;

/// Friction on the ground.
pub const GROUND_FRICTION: i32 = 900;

/// Resistance of the air.
pub const AIR_RESISTANCE: i32 = 990;

} // verus!
