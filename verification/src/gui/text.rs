//! Text.

use vstd::prelude::*;

verus! {

/// To which side a text is set.
#[derive(Debug, Clone, Copy, PartialEq, Eq, Structural)]
pub enum TextAlign {
    Left,
    Center,
    Right,
}

} // verus!
