//! The size of the frames that an engine composes.

use vstd::prelude::*;

verus! {

/// The width and height of a frame, in cells.
pub struct Window {
    pub height: usize,
    pub width: usize,
}

impl Window {
    /// A window of `width` columns and `height` rows.
    pub fn new(width: usize, height: usize) -> (window: Self)
        ensures
            window.width == width,
            window.height == height,
    {
        Self { width, height }
    }
}

} // verus!
