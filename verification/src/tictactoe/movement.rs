//! The directions in which the cursor moves.

use vstd::prelude::*;

verus! {

/// A direction on the board. `UP` leads to smaller `y`, `LEFT` to smaller `x`.
#[allow(non_camel_case_types)]
#[derive(Debug, Clone, Copy, PartialEq, Eq, Structural)]
pub enum MoveDirection {
    UP,
    DOWN,
    LEFT,
    RIGHT,
}

} // verus!
