//! Attributes of collision objects: whatever a game wants to note of an
//! object, by name.

use vstd::prelude::*;
use crate::util::strings::StringMap;

verus! {

/// What is noted of one object: values by name, both of them strings.
pub type Attributes = StringMap;

} // verus!
