//! What can paint itself into a frame.

use vstd::prelude::*;
use crate::engine::rendering::frame::{grid, Frame};

verus! {

/// Something that paints glyphs over some cells of a frame and leaves the others.
pub trait Drawable {
    /// Every cell that `self` paints lies inside `cells`.
    spec fn fits_on(&self, cells: Seq<Seq<u32>>) -> bool;

    /// `cells` after `self` has been painted over it.
    spec fn drawn(&self, cells: Seq<Seq<u32>>) -> Seq<Seq<u32>>;

    /// Paints `self` into `frame`.
    fn draw(&self, frame: &mut Frame)
        requires
            self.fits_on(grid(old(frame))),
        ensures
            grid(final(frame)) == self.drawn(grid(old(frame))),
    ;
}

} // verus!
