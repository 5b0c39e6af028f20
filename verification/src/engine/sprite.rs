//! Sprites: named, placed, layered patches of glyphs.

use vstd::prelude::*;
use vector2d::Vector2D;
use crate::engine::drawable::Drawable;
use crate::engine::rendering::frame::{grid, is_glyph, is_grid, lemma_char_is_glyph, Frame};
use crate::engine::resource::{lemma_max_len, lines_of, max_len, padded, rows_of, split_lines, string_to_utf8};

verus! {

/// A patch of glyphs with a place, a layer and a visibility flag.
pub struct Sprite {
    pub label: String,
    /// The patch, column by column, like a frame: `data[x][y]`.
    pub data: Vec<Vec<char>>,
    /// The number of rows that the patch was made with.
    pub height: usize,
    pub visible: bool,
    /// Where the top left glyph of the patch goes in a frame.
    pub translation: Vector2D<usize>,
    /// Sprites are painted by ascending layer, so a higher layer ends up on top.
    pub layer: i32,
}

/// Why a sprite could not be loaded.
#[derive(Debug, Clone, Copy, PartialEq, Eq)]
pub enum LoadError {
    /// The sprite's file could not be read.
    Unreadable,
}

impl LoadError {
    /// The text shown for this error.
    pub fn message(&self) -> (text: String)
        ensures
            text@ == "Could not load sprite from file."@,
    {
        "Could not load sprite from file.".to_owned()
    }
}

/// Turns rows into columns: entry `[i][j]` of the result is entry `[j][i]` of `v`.
pub fn transpose<T: Copy>(v: Vec<Vec<T>>) -> (columns: Vec<Vec<T>>)
    requires
        v@.len() > 0,
        forall|j: int| 0 <= j < v@.len() ==> (#[trigger] v@[j])@.len() >= v@[0]@.len(),
    ensures
        columns@.len() == v@[0]@.len(),
        forall|i: int| 0 <= i < columns@.len() ==> (#[trigger] columns@[i])@.len() == v@.len(),
        forall|i: int, j: int|
            0 <= i < columns@.len() && 0 <= j < v@.len() ==> (#[trigger] columns@[i])@[j] == (#[trigger] v@[j])@[i],
{
    let width: usize = v[0].len();
    let mut columns: Vec<Vec<T>> = Vec::with_capacity(width);
    let mut i: usize = 0;
    while i < width
        invariant
            i <= width,
            width == v@[0]@.len(),
            v@.len() > 0,
            forall|j: int| 0 <= j < v@.len() ==> (#[trigger] v@[j])@.len() >= width,
            columns@.len() == i,
            forall|a: int| 0 <= a < i ==> (#[trigger] columns@[a])@.len() == v@.len(),
            forall|a: int, j: int|
                0 <= a < i && 0 <= j < v@.len() ==> (#[trigger] columns@[a])@[j] == (#[trigger] v@[j])@[a],
        decreases width - i,
    {
        let mut column: Vec<T> = Vec::with_capacity(v.len());
        let mut j: usize = 0;
        while j < v.len()
            invariant
                i < width,
                j <= v@.len(),
                forall|b: int| 0 <= b < v@.len() ==> (#[trigger] v@[b])@.len() >= width,
                column@.len() == j,
                forall|b: int| 0 <= b < j ==> column@[b] == (#[trigger] v@[b])@[i as int],
            decreases v.len() - j,
        {
            column.push(v[j][i]);
            j += 1;
        }
        columns.push(column);
        i += 1;
    }
    columns
}

/// A sprite as a value: what it shows, and where.
pub struct SpriteView {
    pub label: Seq<char>,
    /// The patch, column by column: `columns[x][y]`.
    pub columns: Seq<Seq<char>>,
    /// The number of rows that the patch was made with.
    pub height: nat,
    pub visible: bool,
    /// The frame column of the patch's first column.
    pub x: nat,
    /// The frame row of the patch's first row.
    pub y: nat,
    pub layer: i32,
}

impl SpriteView {
    /// The number of columns of the patch.
    pub open spec fn width(self) -> nat {
        self.columns.len()
    }

    /// Every column holds `height` glyphs.
    pub open spec fn is_rectangular(self) -> bool {
        forall|x: int| 0 <= x < self.width() ==> (#[trigger] self.columns[x]).len() == self.height
    }

    /// The patch, row by row.
    pub open spec fn rows(self) -> Seq<Seq<char>> {
        Seq::new(self.height, |y: int| Seq::new(self.width(), |x: int| self.columns[x][y]))
    }

    /// The sprite is visible and its patch, placed at `(x, y)`, has a glyph at the
    /// frame cell `(cx, cy)`.
    pub open spec fn covers(self, cx: int, cy: int) -> bool {
        &&& self.visible
        &&& self.x <= cx
        &&& cx - self.x < self.columns.len()
        &&& self.y <= cy
        &&& cy - self.y < self.columns[cx - self.x].len()
    }

    /// The glyph that the sprite shows at the frame cell `(cx, cy)`, where it covers it.
    pub open spec fn glyph_at(self, cx: int, cy: int) -> u32 {
        self.columns[cx - self.x][cy - self.y] as u32
    }

    /// Every cell that the sprite covers lies in a frame of `width` by `height` cells.
    pub open spec fn fits(self, width: nat, height: nat) -> bool {
        forall|cx: int, cy: int| #[trigger] self.covers(cx, cy) ==> cx < width && cy < height
    }

    /// Every cell that the sprite covers is a cell of `cells`.
    pub open spec fn fits_on(self, cells: Seq<Seq<u32>>) -> bool {
        forall|cx: int, cy: int| #[trigger] self.covers(cx, cy) ==> cx < cells.len() && cy < cells[cx].len()
    }

    /// `cells` with the sprite painted over it.
    pub open spec fn drawn(self, cells: Seq<Seq<u32>>) -> Seq<Seq<u32>> {
        Seq::new(
            cells.len(),
            |cx: int| Seq::new(
                cells[cx].len(),
                |cy: int| if self.covers(cx, cy) { self.glyph_at(cx, cy) } else { cells[cx][cy] },
            ),
        )
    }
}

impl View for Sprite {
    type V = SpriteView;

    open spec fn view(&self) -> SpriteView {
        SpriteView {
            label: self.label@,
            columns: Seq::new(self.data@.len(), |x: int| self.data@[x]@),
            height: self.height as nat,
            visible: self.visible,
            x: self.translation.x as nat,
            y: self.translation.y as nat,
            layer: self.layer,
        }
    }
}

impl Sprite {
    /// A sprite of one row: the glyphs of `string`, visible, at the origin, on layer 0.
    pub fn from_string(label: String, string: String) -> (sprite: Self)
        ensures
            sprite.label == label,
            sprite@.visible,
            sprite@.x == 0,
            sprite@.y == 0,
            sprite@.layer == 0,
            sprite@.height == 1,
            sprite@.width() == string@.len(),
            sprite@.is_rectangular(),
            sprite@.rows() == seq![string@],
            sprite@.columns == Seq::new(string@.len(), |x: int| seq![string@[x]]),
    {
        let mut data: Vec<Vec<char>> = Vec::new();
        let row = string_to_utf8(string.as_str());
        data.push(row);
        let sprite = Sprite {
            label,
            visible: true,
            data: transpose(data),
            height: 1,
            translation: Vector2D::new(0, 0),
            layer: 0,
        };
        assert(sprite@.rows() =~~= seq![string@]);
        assert(sprite@.columns =~~= Seq::new(string@.len(), |x: int| seq![string@[x]]));
        sprite
    }

    /// A sprite from the text of its file: one row per line, each line padded with blanks
    /// to the length of the longest. `content` is what reading the file gave, `None` when
    /// it could not be read.
    pub fn from_file(label: String, content: Option<String>) -> (loaded: Result<Sprite, LoadError>)
        requires
            content matches Some(text) ==> text@.len() > 0,
        ensures
            content is None ==> loaded == Err::<Sprite, LoadError>(LoadError::Unreadable),
            content matches Some(text) ==> (loaded matches Ok(sprite) && {
                let lines = lines_of(text@);
                &&& sprite.label == label
                &&& sprite@.visible
                &&& sprite@.x == 0
                &&& sprite@.y == 0
                &&& sprite@.layer == 0
                &&& sprite@.height == lines.len()
                &&& sprite@.width() == max_len(lines)
                &&& sprite@.is_rectangular()
                &&& sprite@.rows() == Seq::new(lines.len(), |y: int| padded(lines[y], max_len(lines)))
            }),
    {
        match content {
            None => Err(LoadError::Unreadable),
            Some(text) => {
                let lines = split_lines(text.as_str());
                let height: usize = lines.len();
                let width: usize = longest(&lines);
                let mut data: Vec<Vec<char>> = Vec::with_capacity(height);
                let mut y: usize = 0;
                while y < height
                    invariant
                        y <= height,
                        height == lines@.len(),
                        width == max_len(rows_of(&lines)),
                        data@.len() == y,
                        forall|r: int| 0 <= r < y ==> (#[trigger] data@[r])@ == padded(rows_of(&lines)[r], width as nat),
                    decreases height - y,
                {
                    let row = pad(&lines[y], width);
                    data.push(row);
                    y += 1;
                }
                proof {
                    lemma_max_len(rows_of(&lines));
                }
                let ghost rows = data;
                let sprite = Sprite {
                    label,
                    visible: true,
                    data: transpose(data),
                    height,
                    translation: Vector2D::new(0, 0),
                    layer: 0,
                };
                assert(sprite@.width() == width);
                assert forall|y: int, x: int| 0 <= y < height && 0 <= x < width implies sprite@.rows()[y][x] == padded(
                    lines_of(text@)[y],
                    max_len(lines_of(text@)),
                )[x] by {
                    assert(sprite@.columns[x] == sprite.data@[x]@);
                    assert(rows_of(&lines)[y] == lines@[y]@);
                    assert(rows@[y]@ == padded(rows_of(&lines)[y], width as nat));
                    assert(sprite.data@[x]@[y] == rows@[y]@[x]);
                }
                assert(sprite@.rows() =~~= Seq::new(
                    lines_of(text@).len(),
                    |y: int| padded(lines_of(text@)[y], max_len(lines_of(text@))),
                ));
                Ok(sprite)
            },
        }
    }

    /// The glyph of the patch in column `x` and row `y`, if it has one there.
    pub fn glyph(&self, x: usize, y: usize) -> (glyph: Option<char>)
        ensures
            glyph == if x < self@.columns.len() && y < self@.columns[x as int].len() {
                Some(self@.columns[x as int][y as int])
            } else {
                None::<char>
            },
    {
        if x < self.data.len() && y < self.data[x].len() {
            Some(self.data[x][y])
        } else {
            None
        }
    }

    /// Whether every cell that the sprite covers lies in a frame of `width` by `height` cells.
    pub fn fits_in(&self, width: usize, height: usize) -> (fits: bool)
        ensures
            fits == self@.fits(width as nat, height as nat),
    {
        if !self.visible {
            return true;
        }
        let mut x: usize = 0;
        while x < self.data.len()
            invariant
                self.visible,
                x <= self.data@.len(),
                forall|cx: int, cy: int|
                    #[trigger] self@.covers(cx, cy) && cx - self.translation.x < x ==> cx < width && cy < height,
            decreases self.data.len() - x,
        {
            let n: usize = self.data[x].len();
            assert(self@.columns[x as int] == self.data@[x as int]@);
            if n > 0 {
                let inside = x < width && self.translation.x < width - x && n <= height
                    && self.translation.y <= height - n;
                if !inside {
                    proof {
                        let cx = self.translation.x + x;
                        let cy = self.translation.y + n - 1;
                        assert(self@.columns[x as int] == self.data@[x as int]@);
                        assert(self@.covers(cx, cy));
                    }
                    return false;
                }
            }
            x += 1;
        }
        true
    }
}

/// The length of the longest row; 0 if there is none.
fn longest(lines: &Vec<Vec<char>>) -> (width: usize)
    ensures
        width == max_len(rows_of(lines)),
{
    let mut width: usize = 0;
    let mut y: usize = 0;
    while y < lines.len()
        invariant
            y <= lines@.len(),
            width == max_len(rows_of(lines).take(y as int)),
        decreases lines.len() - y,
    {
        proof {
            let front = rows_of(lines).take(y as int + 1);
            assert(front.drop_last() =~= rows_of(lines).take(y as int));
            assert(front.last() == lines@[y as int]@);
        }
        if lines[y].len() > width {
            width = lines[y].len();
        }
        y += 1;
    }
    assert(rows_of(lines).take(lines@.len() as int) =~= rows_of(lines));
    width
}

/// `line`, cut or filled with blanks to `width` glyphs.
fn pad(line: &Vec<char>, width: usize) -> (row: Vec<char>)
    ensures
        row@ == padded(line@, width as nat),
{
    let mut row: Vec<char> = Vec::with_capacity(width);
    let mut x: usize = 0;
    while x < width
        invariant
            x <= width,
            row@.len() == x,
            forall|i: int| 0 <= i < x ==> row@[i] == padded(line@, width as nat)[i],
        decreases width - x,
    {
        if x < line.len() {
            row.push(line[x]);
        } else {
            row.push(' ');
        }
        x += 1;
    }
    assert(row@ =~= padded(line@, width as nat));
    row
}

impl Drawable for Sprite {
    open spec fn fits_on(&self, cells: Seq<Seq<u32>>) -> bool {
        self@.fits_on(cells)
    }

    open spec fn drawn(&self, cells: Seq<Seq<u32>>) -> Seq<Seq<u32>> {
        self@.drawn(cells)
    }

    /// Writes every glyph of a visible sprite into `frame`, at its translation; an
    /// invisible sprite writes nothing.
    fn draw(&self, frame: &mut Frame)
    {
        proof {
            assert forall|cx: int, cy: int| #[trigger] self@.covers(cx, cy) implies cx < old(frame)@.len() && cy < old(
                frame,
            )@[cx]@.len() by {
                assert(grid(old(frame))[cx] == old(frame)@[cx]@);
            }
        }
        if self.visible {
            let mut x: usize = 0;
            while x < self.data.len()
                invariant
                    self.visible,
                    x <= self.data@.len(),
                    forall|cx: int, cy: int| #[trigger] self@.covers(cx, cy) ==> cx < old(frame)@.len() && cy < old(frame)@[cx]@.len(),
                    frame@.len() == old(frame)@.len(),
                    forall|cx: int| 0 <= cx < frame@.len() ==> (#[trigger] frame@[cx])@.len() == old(frame)@[cx]@.len(),
                    forall|cx: int, cy: int|
                        0 <= cx < frame@.len() && 0 <= cy < frame@[cx]@.len() ==> #[trigger] frame@[cx]@[cy] == (
                        if self@.covers(cx, cy) && cx - self.translation.x < x {
                            self@.glyph_at(cx, cy)
                        } else {
                            old(frame)@[cx]@[cy]
                        }),
                decreases self.data.len() - x,
            {
                let mut y: usize = 0;
                while y < self.data[x].len()
                    invariant
                        self.visible,
                        x < self.data@.len(),
                        y <= self.data@[x as int]@.len(),
                        forall|cx: int, cy: int| #[trigger] self@.covers(cx, cy) ==> cx < old(frame)@.len() && cy < old(frame)@[cx]@.len(),
                        frame@.len() == old(frame)@.len(),
                        forall|cx: int| 0 <= cx < frame@.len() ==> (#[trigger] frame@[cx])@.len() == old(frame)@[cx]@.len(),
                        forall|cx: int, cy: int|
                            0 <= cx < frame@.len() && 0 <= cy < frame@[cx]@.len() ==> #[trigger] frame@[cx]@[cy] == (
                            if self@.covers(cx, cy) && (cx - self.translation.x < x || (cx - self.translation.x == x
                                && cy - self.translation.y < y)) {
                                self@.glyph_at(cx, cy)
                            } else {
                                old(frame)@[cx]@[cy]
                            }),
                    decreases self.data[x as int].len() - y,
                {
                    proof {
                        assert(self@.columns[x as int] == self.data@[x as int]@);
                        assert(self@.covers(self.translation.x + x, self.translation.y + y));
                        assert(frame.len() == frame@.len());
                        assert(frame@[self.translation.x + x].len() == frame@[self.translation.x + x]@.len());
                    }
                    let x_pos: usize = self.translation.x + x;
                    let y_pos: usize = self.translation.y + y;
                    frame[x_pos][y_pos] = self.data[x][y] as u32;
                    y += 1;
                }
                x += 1;
            }
        }
        assert(grid(frame) =~~= self.drawn(grid(old(frame))));
    }
}

/// A glyph grid stays one when a sprite is painted over it.
pub proof fn lemma_drawn_is_grid(sprite: SpriteView, cells: Seq<Seq<u32>>, width: nat, height: nat)
    requires
        is_grid(cells, width, height),
    ensures
        is_grid(sprite.drawn(cells), width, height),
{
    assert forall|x: int, y: int| 0 <= x < width && 0 <= y < height implies is_glyph(
        #[trigger] sprite.drawn(cells)[x][y],
    ) by {
        if sprite.covers(x, y) {
            lemma_char_is_glyph(sprite.columns[x - sprite.x][y - sprite.y]);
        }
    }
}

} // verus!
