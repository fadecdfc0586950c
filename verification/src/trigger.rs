//! Areas that set something off.

use vstd::prelude::*;
use crate::math::Rect;
use crate::util::Result;

verus! {

/// An area of the level that can set something off.
#[derive(Debug, Clone, Copy, PartialEq, Eq, Structural)]
pub struct Trigger {
    pub area: Rect,
    pub active: bool,
}

impl Trigger {
    /// An active trigger over the given area.
    pub fn new(area: Rect) -> (trigger: Self)
        ensures
            trigger == (Trigger { area, active: true }),
    {
        Self { area, active: true }
    }

    /// Whether the player, at `player_rect`, sets the trigger off. It
    /// never does.
    pub fn check_activation(&self, _player_rect: &Rect) -> (set_off: bool)
        ensures
            !set_off,
    {
        false
    }

    /// What happens when the trigger is set off: nothing by itself.
    pub fn execute(&self) -> (done: Result<()>)
        ensures
            done is Ok,
    {
        Ok(())
    }
}

} // verus!
