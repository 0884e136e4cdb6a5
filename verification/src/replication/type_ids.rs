//! Stable per-component wire ids. Retired ids are never reused.

use vstd::prelude::*;

verus! {

/// Wire id of the player marker component.
pub const PLAYER: u16 = 1;

/// Wire id of the facing direction component.
pub const FACING: u16 = 2;

/// Wire id of the transform component.
pub const TRANSFORM: u16 = 3;

} // verus!
