//! A frame is a fixed-size grid of glyphs, stored column by column: `frame[x][y]`.

use vstd::prelude::*;

verus! {

/// One rendered snapshot. The outer vector holds the columns, each column its rows.
pub type Frame = Vec<Vec<u32>>;

/// The glyph of an empty cell: a space.
pub const BLANK: u32 = 32;

/// A position in a frame, in cells.
#[derive(Default, Debug, Clone, Copy)]
pub struct FrameCoordinates {
    pub x: usize,
    pub y: usize,
}

/// A glyph is the code of a Unicode scalar value.
pub open spec fn is_glyph(code: u32) -> bool {
    code <= 0xD7FF || (0xE000 <= code && code <= 0x10FFFF)
}

/// The code of every character is a glyph.
pub proof fn lemma_char_is_glyph(c: char)
    ensures
        is_glyph(c as u32),
{
}

/// The cells of a frame as a mathematical grid, indexed `[x][y]`.
pub open spec fn grid(frame: &Frame) -> Seq<Seq<u32>> {
    Seq::new(frame@.len(), |x: int| frame@[x]@)
}

/// `cells` has `width` columns of `height` glyphs each.
pub open spec fn is_grid(cells: Seq<Seq<u32>>, width: nat, height: nat) -> bool {
    &&& cells.len() == width
    &&& forall|x: int| 0 <= x < width ==> (#[trigger] cells[x]).len() == height
    &&& forall|x: int, y: int| 0 <= x < width && 0 <= y < height ==> is_glyph(#[trigger] cells[x][y])
}

/// The grid of the given size whose every cell is blank.
pub open spec fn blank_grid(width: nat, height: nat) -> Seq<Seq<u32>> {
    Seq::new(width, |x: int| Seq::new(height, |y: int| BLANK))
}

/// A fresh frame of the given size with every cell blank.
pub fn new_frame(width: usize, height: usize) -> (frame: Frame)
    ensures
        grid(&frame) == blank_grid(width as nat, height as nat),
        is_grid(grid(&frame), width as nat, height as nat),
{
    let mut frame: Frame = Vec::with_capacity(width);
    let mut x: usize = 0;
    while x < width
        invariant
            x <= width,
            frame@.len() == x,
            forall|i: int| 0 <= i < x ==> (#[trigger] frame@[i])@ == Seq::new(height as nat, |y: int| BLANK),
        decreases width - x,
    {
        let mut col: Vec<u32> = Vec::with_capacity(height);
        let mut y: usize = 0;
        while y < height
            invariant
                y <= height,
                col@.len() == y,
                forall|j: int| 0 <= j < y ==> col@[j] == BLANK,
            decreases height - y,
        {
            col.push(BLANK);
            y += 1;
        }
        assert(col@ =~= Seq::new(height as nat, |y: int| BLANK));
        frame.push(col);
        x += 1;
    }
    assert(grid(&frame) =~= blank_grid(width as nat, height as nat));
    frame
}

} // verus!
