//! The renderer's bookkeeping: which cells of the terminal a frame makes it write.
//!
//! The renderer remembers the frame that the terminal shows. For the next frame it
//! plans one write for each cell whose glyph differs, column by column and from the
//! top down, and then remembers that frame. Its first render is forced: every cell is
//! written, whatever it held.

use vstd::prelude::*;
use crate::engine::rendering::frame::{blank_grid, grid, is_glyph, is_grid, new_frame, Frame};

verus! {

/// `char::from_u32` gives the character with the code `code` where `code` is the code
/// of a Unicode scalar value, and `None` for every other number.
pub assume_specification[ char::from_u32 ](code: u32) -> (glyph: Option<char>)
    ensures
        is_glyph(code) ==> glyph == Some(code as char),
        !is_glyph(code) ==> glyph is None,
;

/// One write to the terminal: move the cursor to column `x`, row `y`, and print `glyph`.
#[derive(Debug, Clone, Copy, PartialEq, Eq)]
pub struct CellWrite {
    pub x: usize,
    pub y: usize,
    pub glyph: char,
}

/// Why a frame was not rendered.
#[derive(Debug, Clone, Copy, PartialEq, Eq)]
pub enum RenderError {
    /// The frame has not the renderer's size, or holds a number that is no glyph.
    BadFrame,
}

/// The writes for the first `n` rows of column `x`: one for each row whose glyph
/// changed, or for each row if `force` is set.
pub open spec fn column_writes(previous: Seq<u32>, next: Seq<u32>, x: int, force: bool, n: int) -> Seq<CellWrite>
    decreases n,
{
    if n <= 0 {
        Seq::empty()
    } else {
        let above = column_writes(previous, next, x, force, n - 1);
        if force || previous[n - 1] != next[n - 1] {
            above.push(CellWrite { x: x as usize, y: (n - 1) as usize, glyph: next[n - 1] as char })
        } else {
            above
        }
    }
}

/// The writes for the first `n` columns, column after column.
pub open spec fn frame_writes(previous: Seq<Seq<u32>>, next: Seq<Seq<u32>>, force: bool, n: int) -> Seq<CellWrite>
    decreases n,
{
    if n <= 0 {
        Seq::empty()
    } else {
        frame_writes(previous, next, force, n - 1) + column_writes(
            previous[n - 1],
            next[n - 1],
            n - 1,
            force,
            next[n - 1].len() as int,
        )
    }
}

/// The writes that turn a terminal showing `previous` into one showing `next`.
pub open spec fn writes(previous: Seq<Seq<u32>>, next: Seq<Seq<u32>>, force: bool) -> Seq<CellWrite> {
    frame_writes(previous, next, force, next.len() as int)
}

/// The two grids have the same columns of the same lengths.
pub open spec fn same_shape(previous: Seq<Seq<u32>>, next: Seq<Seq<u32>>) -> bool {
    &&& previous.len() == next.len()
    &&& forall|x: int| 0 <= x < next.len() ==> (#[trigger] previous[x]).len() == next[x].len()
}

/// Every cell holds a glyph.
pub open spec fn glyphs_only(cells: Seq<Seq<u32>>) -> bool {
    forall|x: int, y: int| 0 <= x < cells.len() && 0 <= y < cells[x].len() ==> is_glyph(#[trigger] cells[x][y])
}

/// What a renderer for frames of `width` by `height` cells has on display once it was
/// handed `frame`, if it had `displayed` on display before: the frame, if it is one
/// of that size.
pub open spec fn shown_after(displayed: Seq<Seq<u32>>, frame: Seq<Seq<u32>>, width: nat, height: nat) -> Seq<
    Seq<u32>,
> {
    if is_grid(frame, width, height) {
        frame
    } else {
        displayed
    }
}

/// What the renderer has on display once it was handed `frames`, one after the other.
pub open spec fn shown_after_all(
    displayed: Seq<Seq<u32>>,
    frames: Seq<Seq<Seq<u32>>>,
    width: nat,
    height: nat,
) -> Seq<Seq<u32>>
    decreases frames.len(),
{
    if frames.len() == 0 {
        displayed
    } else {
        shown_after(shown_after_all(displayed, frames.drop_last(), width, height), frames.last(), width, height)
    }
}

/// The writes that turn a terminal showing `previous_frame` into one showing
/// `next_frame`: one for each cell whose glyph differs, or for every cell if `force` is
/// set, in the order of the cells, column by column.
pub fn render(previous_frame: &Frame, next_frame: &Frame, force: bool) -> (planned: Vec<CellWrite>)
    requires
        same_shape(grid(previous_frame), grid(next_frame)),
        glyphs_only(grid(next_frame)),
    ensures
        planned@ == writes(grid(previous_frame), grid(next_frame), force),
{
    let mut planned: Vec<CellWrite> = Vec::new();
    let mut x: usize = 0;
    while x < next_frame.len()
        invariant
            x <= next_frame@.len(),
            same_shape(grid(previous_frame), grid(next_frame)),
            glyphs_only(grid(next_frame)),
            planned@ == frame_writes(grid(previous_frame), grid(next_frame), force, x as int),
        decreases next_frame.len() - x,
    {
        let ghost done = planned@;
        let ghost previous = grid(previous_frame)[x as int];
        let ghost next = grid(next_frame)[x as int];
        assert(previous == previous_frame@[x as int]@);
        assert(next == next_frame@[x as int]@);
        let mut y: usize = 0;
        while y < next_frame[x].len()
            invariant
                x < next_frame@.len(),
                x < previous_frame@.len(),
                y <= next.len(),
                previous.len() == next.len(),
                previous == previous_frame@[x as int]@,
                next == next_frame@[x as int]@,
                forall|r: int| 0 <= r < next.len() ==> is_glyph(#[trigger] next[r]),
                planned@ == done + column_writes(previous, next, x as int, force, y as int),
            decreases next_frame[x as int].len() - y,
        {
            let content: u32 = next_frame[x][y];
            let content_changed = previous_frame[x][y] != content;
            if content_changed || force {
                assert(is_glyph(next[y as int]));
                let glyph = char::from_u32(content);
                planned.push(CellWrite { x, y, glyph: glyph.unwrap() });
            }
            assert(planned@ =~= done + column_writes(previous, next, x as int, force, y as int + 1));
            y += 1;
        }
        x += 1;
    }
    planned
}

/// Whether `frame` is `width` columns of `height` glyphs each.
pub fn is_frame(frame: &Frame, width: usize, height: usize) -> (ok: bool)
    ensures
        ok == is_grid(grid(frame), width as nat, height as nat),
{
    if frame.len() != width {
        return false;
    }
    let mut x: usize = 0;
    while x < width
        invariant
            x <= width,
            frame@.len() == width,
            forall|i: int| 0 <= i < x ==> (#[trigger] grid(frame)[i]).len() == height,
            forall|i: int, j: int| 0 <= i < x && 0 <= j < height ==> is_glyph(#[trigger] grid(frame)[i][j]),
        decreases width - x,
    {
        assert(grid(frame)[x as int] == frame@[x as int]@);
        if frame[x].len() != height {
            return false;
        }
        let mut y: usize = 0;
        while y < height
            invariant
                x < width,
                frame@.len() == width,
                y <= height,
                frame@[x as int]@.len() == height,
                grid(frame)[x as int] == frame@[x as int]@,
                forall|j: int| 0 <= j < y ==> is_glyph(#[trigger] grid(frame)[x as int][j]),
            decreases height - y,
        {
            let code: u32 = frame[x][y];
            let glyph = code <= 0xD7FF || (0xE000 <= code && code <= 0x10FFFF);
            if !glyph {
                assert(!is_glyph(grid(frame)[x as int][y as int]));
                return false;
            }
            y += 1;
        }
        x += 1;
    }
    true
}

/// Remembers the frame on display and plans the writes for the next.
pub struct Renderer {
    frame_width: usize,
    frame_height: usize,
    previous_frame: Frame,
}

impl Renderer {
    #[verifier::type_invariant]
    spec fn inv(self) -> bool {
        is_grid(grid(&self.previous_frame), self.frame_width as nat, self.frame_height as nat)
    }

    /// The width of the frames that the renderer takes.
    pub closed spec fn width(&self) -> nat {
        self.frame_width as nat
    }

    /// The height of the frames that the renderer takes.
    pub closed spec fn height(&self) -> nat {
        self.frame_height as nat
    }

    /// The frame on display.
    pub closed spec fn displayed(&self) -> Seq<Seq<u32>> {
        grid(&self.previous_frame)
    }

    /// A renderer for frames of `width` by `height` cells, with the blank frame on display.
    pub fn new(width: usize, height: usize) -> (renderer: Self)
        ensures
            renderer.width() == width,
            renderer.height() == height,
            renderer.displayed() == blank_grid(width as nat, height as nat),
    {
        Self { frame_width: width, frame_height: height, previous_frame: new_frame(width, height) }
    }

    /// The first render, which is forced: a write for every cell of the frame on
    /// display, so that the terminal shows what the renderer believes it shows.
    pub fn run(&self) -> (planned: Vec<CellWrite>)
        ensures
            planned@ == writes(self.displayed(), self.displayed(), true),
    {
        proof {
            use_type_invariant(self);
        }
        render(&self.previous_frame, &self.previous_frame, true)
    }

    /// Takes the next frame: plans a write for each cell in which it differs from the
    /// frame on display, and puts it on display. A frame of another size, or one that
    /// holds a number that is no glyph, is refused and changes nothing.
    pub fn send(&mut self, frame: Frame) -> (planned: Result<Vec<CellWrite>, RenderError>)
        ensures
            final(self).width() == old(self).width(),
            final(self).height() == old(self).height(),
            final(self).displayed() == shown_after(
                old(self).displayed(),
                grid(&frame),
                old(self).width(),
                old(self).height(),
            ),
            match planned {
                Ok(planned) => is_grid(grid(&frame), old(self).width(), old(self).height()) && planned@ == writes(
                    old(self).displayed(),
                    grid(&frame),
                    false,
                ),
                Err(error) => error == RenderError::BadFrame && !is_grid(
                    grid(&frame),
                    old(self).width(),
                    old(self).height(),
                ),
            },
    {
        proof {
            use_type_invariant(&*self);
        }
        if !is_frame(&frame, self.frame_width, self.frame_height) {
            return Err(RenderError::BadFrame);
        }
        let planned = render(&self.previous_frame, &frame, false);
        self.previous_frame = frame;
        Ok(planned)
    }

    /// The frame on display.
    pub fn previous_frame(&self) -> (frame: &Frame)
        ensures
            grid(frame) == self.displayed(),
    {
        &self.previous_frame
    }
}

impl Default for Renderer {
    /// A renderer for frames of 50 by 50 cells.
    fn default() -> (renderer: Self)
        ensures
            renderer.width() == 50,
            renderer.height() == 50,
            renderer.displayed() == blank_grid(50, 50),
    {
        Renderer::new(50, 50)
    }
}

/// A write is planned for a cell exactly if the render is forced or the cell's glyph
/// changed, and it carries the cell's new glyph.
pub proof fn lemma_column_writes(previous: Seq<u32>, next: Seq<u32>, x: int, force: bool, n: int, w: CellWrite)
    requires
        0 <= n <= next.len(),
        0 <= x <= usize::MAX,
        next.len() <= usize::MAX,
    ensures
        column_writes(previous, next, x, force, n).contains(w) <==> {
            &&& w.x == x
            &&& w.y < n
            &&& force || previous[w.y as int] != next[w.y as int]
            &&& w.glyph == next[w.y as int] as char
        },
    decreases n,
{
    if n > 0 {
        lemma_column_writes(previous, next, x, force, n - 1, w);
        let above = column_writes(previous, next, x, force, n - 1);
        if force || previous[n - 1] != next[n - 1] {
            let last = CellWrite { x: x as usize, y: (n - 1) as usize, glyph: next[n - 1] as char };
            assert(above.push(last).contains(w) <==> above.contains(w) || w == last) by {
                if above.contains(w) {
                    let i = choose|i: int| 0 <= i < above.len() && above[i] == w;
                    assert(above.push(last)[i] == w);
                }
                if w == last {
                    assert(above.push(last)[above.len() as int] == w);
                }
            }
        }
    }
}

/// Rendering the frame that is on display, unforced, writes nothing.
pub proof fn lemma_same_frame_writes_nothing(frame: Seq<Seq<u32>>, n: int)
    requires
        0 <= n <= frame.len(),
    ensures
        frame_writes(frame, frame, false, n) == Seq::<CellWrite>::empty(),
    decreases n,
{
    if n > 0 {
        lemma_same_frame_writes_nothing(frame, n - 1);
        lemma_same_column_writes_nothing(frame[n - 1], n - 1, frame[n - 1].len() as int);
        assert(Seq::<CellWrite>::empty() + Seq::<CellWrite>::empty() =~= Seq::<CellWrite>::empty());
    }
}

/// A column that did not change gets no write.
pub proof fn lemma_same_column_writes_nothing(column: Seq<u32>, x: int, n: int)
    ensures
        column_writes(column, column, x, false, n) == Seq::<CellWrite>::empty(),
    decreases n,
{
    if n > 0 {
        lemma_same_column_writes_nothing(column, x, n - 1);
    }
}

/// A forced render plans one write for every row of a column.
pub proof fn lemma_forced_column(previous: Seq<u32>, next: Seq<u32>, x: int, n: int)
    requires
        0 <= n,
    ensures
        column_writes(previous, next, x, true, n).len() == n,
    decreases n,
{
    if n > 0 {
        lemma_forced_column(previous, next, x, n - 1);
    }
}

/// The number of cells in the first `n` columns of a grid.
pub open spec fn cells_in(cells: Seq<Seq<u32>>, n: int) -> int
    decreases n,
{
    if n <= 0 {
        0
    } else {
        cells_in(cells, n - 1) + cells[n - 1].len()
    }
}

/// A forced render plans as many writes as the frame has cells.
pub proof fn lemma_forced_writes_count(previous: Seq<Seq<u32>>, next: Seq<Seq<u32>>, n: int)
    requires
        0 <= n <= next.len(),
    ensures
        frame_writes(previous, next, true, n).len() == cells_in(next, n),
    decreases n,
{
    if n > 0 {
        lemma_forced_writes_count(previous, next, n - 1);
        lemma_forced_column(previous[n - 1], next[n - 1], n - 1, next[n - 1].len() as int);
    }
}

/// Which writes a render plans: one for each cell of the frame whose glyph changed,
/// or for each cell if it is forced, and each with the cell's new glyph.
pub proof fn lemma_frame_writes(previous: Seq<Seq<u32>>, next: Seq<Seq<u32>>, force: bool, n: int, w: CellWrite)
    requires
        0 <= n <= next.len() <= usize::MAX,
        forall|x: int| 0 <= x < next.len() ==> (#[trigger] next[x]).len() <= usize::MAX,
    ensures
        frame_writes(previous, next, force, n).contains(w) <==> {
            &&& w.x < n
            &&& w.y < next[w.x as int].len()
            &&& force || previous[w.x as int][w.y as int] != next[w.x as int][w.y as int]
            &&& w.glyph == next[w.x as int][w.y as int] as char
        },
    decreases n,
{
    if n > 0 {
        lemma_frame_writes(previous, next, force, n - 1, w);
        let before = frame_writes(previous, next, force, n - 1);
        let column = column_writes(previous[n - 1], next[n - 1], n - 1, force, next[n - 1].len() as int);
        lemma_column_writes(previous[n - 1], next[n - 1], n - 1, force, next[n - 1].len() as int, w);
        assert((before + column).contains(w) <==> before.contains(w) || column.contains(w)) by {
            if before.contains(w) {
                let i = choose|i: int| 0 <= i < before.len() && before[i] == w;
                assert((before + column)[i] == w);
            }
            if column.contains(w) {
                let i = choose|i: int| 0 <= i < column.len() && column[i] == w;
                assert((before + column)[before.len() + i] == w);
            }
            if (before + column).contains(w) {
                let i = choose|i: int| 0 <= i < (before + column).len() && (before + column)[i] == w;
                if i < before.len() {
                    assert(before[i] == w);
                } else {
                    assert(column[i - before.len()] == w);
                }
            }
        }
    }
}

/// The very first render writes every cell: whatever the terminal showed, a forced
/// render of a frame plans, for each of its cells, the write of that cell's glyph.
pub proof fn lemma_forced_writes_every_cell(previous: Seq<Seq<u32>>, next: Seq<Seq<u32>>, x: int, y: int)
    requires
        next.len() <= usize::MAX,
        forall|i: int| 0 <= i < next.len() ==> (#[trigger] next[i]).len() <= usize::MAX,
        0 <= x < next.len(),
        0 <= y < next[x].len(),
    ensures
        writes(previous, next, true).contains(CellWrite { x: x as usize, y: y as usize, glyph: next[x][y] as char }),
        writes(previous, next, true).len() == cells_in(next, next.len() as int),
{
    lemma_frame_writes(
        previous,
        next,
        true,
        next.len() as int,
        CellWrite { x: x as usize, y: y as usize, glyph: next[x][y] as char },
    );
    lemma_forced_writes_count(previous, next, next.len() as int);
}

/// Frames are put on display in the order in which they are handed over: after any
/// number of them, the last one is on display.
pub proof fn lemma_last_frame_stays_on_display(
    displayed: Seq<Seq<u32>>,
    frames: Seq<Seq<Seq<u32>>>,
    width: nat,
    height: nat,
)
    requires
        frames.len() > 0,
        is_grid(frames.last(), width, height),
    ensures
        shown_after_all(displayed, frames, width, height) == frames.last(),
{
}

/// Each frame is rendered against the one handed over just before it: with `frames`
/// taken in order, frame `k` finds frame `k - 1` on display.
pub proof fn lemma_frames_render_in_order(
    displayed: Seq<Seq<u32>>,
    frames: Seq<Seq<Seq<u32>>>,
    width: nat,
    height: nat,
    k: int,
)
    requires
        0 < k < frames.len(),
        is_grid(frames[k - 1], width, height),
    ensures
        shown_after_all(displayed, frames.take(k), width, height) == frames[k - 1],
{
    assert(frames.take(k).last() == frames[k - 1]);
}

/// Rendering the same frame twice in a row writes nothing the second time.
pub proof fn lemma_second_render_writes_nothing(frame: Seq<Seq<u32>>)
    ensures
        writes(frame, frame, false) == Seq::<CellWrite>::empty(),
{
    lemma_same_frame_writes_nothing(frame, frame.len() as int);
}

} // verus!
