//! A side-scrolling platformer engine on a fixed-point grid: geometry,
//! a spatial hash with layer rules, a fixed-timestep rigid-body integrator,
//! entities with one component per kind, and the state machines of the
//! player and of the enemies that walk the level.
//!
//! Every length, speed and acceleration is a fixed-point number with three
//! decimal places held in an `i32`: the integer 1000 stands for one world
//! unit. Arithmetic on them is exact in wider integers; a result that is
//! stored again saturates at the ends of the `i32` range. Time is counted in
//! ticks, sixty thousand to the second.

pub mod audio;
pub mod badguy;
pub mod collision;
pub mod config;
pub mod control;
pub mod engine;
pub mod gui;
pub mod math;
pub mod object;
pub mod physics;
pub mod sprite;
pub mod supertux;
pub mod trigger;
pub mod util;

pub use math::{Rect, Vector2};
pub use util::{Error, Result};
