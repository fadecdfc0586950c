//! Buttons.

use vstd::prelude::*;

verus! {

/// What a button looks like at the moment.
#[derive(Debug, Clone, Copy, PartialEq, Eq, Structural)]
pub enum ButtonState {
    Normal,
    Hovered,
    Pressed,
    Disabled,
}

} // verus!
