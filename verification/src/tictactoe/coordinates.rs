//! Cells of the board, and where they lie in a frame.

use vstd::prelude::*;
use vector2d::Vector2D;

verus! {

/// A cell of the board: column `x` and row `y`, both counted from 0.
#[derive(Default, Debug, Clone, Copy, PartialEq, Eq, Structural)]
pub struct BoardCoordinates {
    pub x: usize,
    pub y: usize,
}

/// A cell of a frame.
#[derive(Default, Debug, Clone, Copy, PartialEq, Eq, Structural)]
pub struct FrameCoordinates {
    pub x: usize,
    pub y: usize,
}

impl BoardCoordinates {
    /// The cell in column `x` and row `y`.
    pub fn new(x: usize, y: usize) -> (cell: Self)
        ensures
            cell.x == x,
            cell.y == y,
    {
        Self { x, y }
    }

    /// The frame column of the cell's mark, for a grid drawn at frame column `offset`:
    /// the cells are four columns apart, behind one column of margin.
    pub open spec fn frame_x(self, offset: int) -> int {
        1 + self.x * 4 + offset
    }

    /// The frame row of the cell's mark, for a grid drawn at frame row `offset`: the
    /// cells are two rows apart.
    pub open spec fn frame_y(self, offset: int) -> int {
        self.y * 2 + offset
    }

    /// Where the cell's mark goes in a frame, for a grid drawn at `board_offset`.
    pub fn to_frame_coordinates(&self, board_offset: &Vector2D<usize>) -> (cell: FrameCoordinates)
        requires
            self.frame_x(board_offset.x as int) <= usize::MAX,
            self.frame_y(board_offset.y as int) <= usize::MAX,
        ensures
            cell.x == self.frame_x(board_offset.x as int),
            cell.y == self.frame_y(board_offset.y as int),
    {
        FrameCoordinates { x: 1 + self.x * 4 + board_offset.x, y: self.y * 2 + board_offset.y }
    }
}

} // verus!
