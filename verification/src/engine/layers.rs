//! Composition: painting sprites by ascending layer into a fresh frame.
//!
//! Two statements of the same picture stand here. The first follows the painter:
//! sprites are taken in draw order and each overwrites what lies under it. The second
//! looks at one cell: it shows the topmost sprite that covers it, or a blank.

use vstd::prelude::*;
use crate::engine::drawable::Drawable;
use crate::engine::rendering::frame::{blank_grid, grid, is_grid, new_frame, Frame, BLANK};
use crate::engine::sprite::{lemma_drawn_is_grid, Sprite, SpriteView};

verus! {

/// The sprites of a vector as values.
pub open spec fn views(sprites: &Vec<Sprite>) -> Seq<SpriteView> {
    Seq::new(sprites@.len(), |i: int| sprites@[i]@)
}

/// Sprite `i` is painted after sprite `j`: it has the higher layer, or the same layer
/// and the later place among the sprites.
pub open spec fn above(sprites: Seq<SpriteView>, i: int, j: int) -> bool {
    sprites[i].layer > sprites[j].layer || (sprites[i].layer == sprites[j].layer && i > j)
}

/// Sprite `i` has a place in `order`.
pub open spec fn listed(order: Seq<usize>, i: int) -> bool {
    exists|k: int| 0 <= k < order.len() && #[trigger] order[k] == i
}

/// `order` lists the first `n` sprites, each once, every one after those it is above.
pub open spec fn orders_first(order: Seq<usize>, sprites: Seq<SpriteView>, n: int) -> bool {
    &&& order.len() == n
    &&& forall|k: int| 0 <= k < order.len() ==> (#[trigger] order[k]) < n
    &&& forall|k1: int, k2: int|
        0 <= k1 < k2 < order.len() ==> above(sprites, #[trigger] order[k2] as int, #[trigger] order[k1] as int)
    &&& forall|i: int| 0 <= i < n ==> #[trigger] listed(order, i)
}

/// `order` is the order in which `sprites` are painted: by ascending layer, sprites of
/// one layer in the order in which they stand.
pub open spec fn is_draw_order(order: Seq<usize>, sprites: Seq<SpriteView>) -> bool {
    orders_first(order, sprites, sprites.len() as int)
}

/// The glyph at `(x, y)` once the first `k` sprites of `order` have been painted over a
/// blank frame, one after the other.
pub open spec fn painted(sprites: Seq<SpriteView>, order: Seq<usize>, k: int, x: int, y: int) -> u32
    decreases k,
{
    if k <= 0 {
        BLANK
    } else if sprites[order[k - 1] as int].covers(x, y) {
        sprites[order[k - 1] as int].glyph_at(x, y)
    } else {
        painted(sprites, order, k - 1, x, y)
    }
}

/// Among the first `n` sprites, the one that covers `(x, y)` and is above every other
/// that does; `None` if none covers it.
pub open spec fn top_sprite(sprites: Seq<SpriteView>, n: int, x: int, y: int) -> Option<int>
    decreases n,
{
    if n <= 0 {
        None
    } else {
        let below = top_sprite(sprites, n - 1, x, y);
        if sprites[n - 1].covers(x, y) && (below is None || sprites[below.unwrap()].layer <= sprites[n - 1].layer) {
            Some(n - 1)
        } else {
            below
        }
    }
}

/// What the cell `(x, y)` shows: the glyph of its topmost sprite, or a blank.
pub open spec fn composed_cell(sprites: Seq<SpriteView>, x: int, y: int) -> u32 {
    match top_sprite(sprites, sprites.len() as int, x, y) {
        Some(i) => sprites[i].glyph_at(x, y),
        None => BLANK,
    }
}

/// The composition of `sprites` in a frame of `width` by `height` cells.
pub open spec fn composed(sprites: Seq<SpriteView>, width: nat, height: nat) -> Seq<Seq<u32>> {
    Seq::new(width, |x: int| Seq::new(height, |y: int| composed_cell(sprites, x, y)))
}

/// Every sprite lies inside a frame of `width` by `height` cells.
pub open spec fn all_fit(sprites: Seq<SpriteView>, width: nat, height: nat) -> bool {
    forall|i: int| 0 <= i < sprites.len() ==> (#[trigger] sprites[i]).fits(width, height)
}

/// What `top_sprite` picks: a sprite that covers the cell and is above all others that do.
pub proof fn lemma_top_sprite(sprites: Seq<SpriteView>, n: int, x: int, y: int)
    requires
        0 <= n <= sprites.len(),
    ensures
        match top_sprite(sprites, n, x, y) {
            Some(i) => {
                &&& 0 <= i < n
                &&& sprites[i].covers(x, y)
                &&& forall|j: int| 0 <= j < n && j != i && (#[trigger] sprites[j]).covers(x, y) ==> above(sprites, i, j)
            },
            None => forall|j: int| 0 <= j < n ==> !(#[trigger] sprites[j]).covers(x, y),
        },
    decreases n,
{
    if n > 0 {
        lemma_top_sprite(sprites, n - 1, x, y);
    }
}

/// What `painted` shows: the glyph of the last sprite in the order that covers the
/// cell, or a blank if none does.
pub proof fn lemma_painted(sprites: Seq<SpriteView>, order: Seq<usize>, k: int, x: int, y: int)
    requires
        0 <= k <= order.len(),
    ensures
        ({
            &&& painted(sprites, order, k, x, y) == BLANK
            &&& forall|j: int| 0 <= j < k ==> !sprites[(#[trigger] order[j]) as int].covers(x, y)
        }) || (exists|j: int|
            {
                &&& 0 <= j < k
                &&& sprites[(#[trigger] order[j]) as int].covers(x, y)
                &&& painted(sprites, order, k, x, y) == sprites[order[j] as int].glyph_at(x, y)
                &&& forall|l: int| j < l < k ==> !sprites[(#[trigger] order[l]) as int].covers(x, y)
            }),
    decreases k,
{
    if k > 0 {
        if sprites[order[k - 1] as int].covers(x, y) {
            let j = k - 1;
            assert(sprites[order[j] as int].covers(x, y));
        } else {
            lemma_painted(sprites, order, k - 1, x, y);
            if exists|j: int|
                {
                    &&& 0 <= j < k - 1
                    &&& sprites[(#[trigger] order[j]) as int].covers(x, y)
                    &&& painted(sprites, order, k - 1, x, y) == sprites[order[j] as int].glyph_at(x, y)
                    &&& forall|l: int| j < l < k - 1 ==> !sprites[(#[trigger] order[l]) as int].covers(x, y)
                } {
                let j = choose|j: int|
                    {
                        &&& 0 <= j < k - 1
                        &&& sprites[(#[trigger] order[j]) as int].covers(x, y)
                        &&& painted(sprites, order, k - 1, x, y) == sprites[order[j] as int].glyph_at(x, y)
                        &&& forall|l: int| j < l < k - 1 ==> !sprites[(#[trigger] order[l]) as int].covers(x, y)
                    };
                assert(sprites[order[j] as int].covers(x, y));
                assert forall|l: int| j < l < k implies !sprites[(#[trigger] order[l]) as int].covers(x, y) by {
                    if l < k - 1 {
                    }
                }
            }
        }
    }
}

/// Painting in draw order shows in every cell its topmost sprite.
pub proof fn lemma_painted_is_composed(sprites: Seq<SpriteView>, order: Seq<usize>, x: int, y: int)
    requires
        is_draw_order(order, sprites),
    ensures
        painted(sprites, order, order.len() as int, x, y) == composed_cell(sprites, x, y),
{
    let n = sprites.len() as int;
    lemma_top_sprite(sprites, n, x, y);
    lemma_painted(sprites, order, n, x, y);
    match top_sprite(sprites, n, x, y) {
        None => {
            assert forall|j: int| 0 <= j < n implies !sprites[(#[trigger] order[j]) as int].covers(x, y) by {
                assert(order[j] < n);
            }
        },
        Some(top) => {
            assert(listed(order, top));
            let p = choose|p: int| 0 <= p < order.len() && #[trigger] order[p] == top;
            assert(sprites[order[p] as int].covers(x, y));
            let j = choose|j: int|
                {
                    &&& 0 <= j < n
                    &&& sprites[(#[trigger] order[j]) as int].covers(x, y)
                    &&& painted(sprites, order, n, x, y) == sprites[order[j] as int].glyph_at(x, y)
                    &&& forall|l: int| j < l < n ==> !sprites[(#[trigger] order[l]) as int].covers(x, y)
                };
            assert(p <= j);
            if p < j {
                assert(above(sprites, order[j] as int, order[p] as int));
                assert(order[j] < n);
                assert(order[j] != top);
                assert(sprites[order[j] as int].covers(x, y));
                assert(above(sprites, top, order[j] as int));
            }
        },
    }
}

/// The order in which `sprites` are painted.
pub fn draw_order(sprites: &Vec<Sprite>) -> (order: Vec<usize>)
    ensures
        is_draw_order(order@, views(sprites)),
{
    let mut order: Vec<usize> = Vec::with_capacity(sprites.len());
    let mut i: usize = 0;
    while i < sprites.len()
        invariant
            i <= sprites@.len(),
            orders_first(order@, views(sprites), i as int),
        decreases sprites.len() - i,
    {
        let mut pos: usize = order.len();
        while pos > 0 && sprites[order[pos - 1]].layer > sprites[i].layer
            invariant
                i < sprites@.len(),
                pos <= order@.len(),
                orders_first(order@, views(sprites), i as int),
                forall|k: int| pos <= k < order@.len() ==> sprites@[(#[trigger] order@[k]) as int].layer > sprites@[i as int].layer,
            decreases pos,
        {
            pos -= 1;
        }
        let ghost before = order@;
        proof {
            assert forall|k: int| 0 <= k < pos implies sprites@[(#[trigger] before[k]) as int].layer <= sprites@[i as int].layer by {
                if k < pos - 1 {
                    assert(above(views(sprites), before[pos - 1] as int, before[k] as int));
                }
            }
        }
        order.insert(pos, i);
        proof {
            let after = order@;
            assert(after.len() == i + 1);
            assert forall|k: int| 0 <= k < after.len() implies (#[trigger] after[k]) < i + 1 by {
                if k < pos {
                    assert(after[k] == before[k]);
                } else if k > pos {
                    assert(after[k] == before[k - 1]);
                }
            }
            assert forall|k1: int, k2: int| 0 <= k1 < k2 < after.len() implies above(
                views(sprites),
                #[trigger] after[k2] as int,
                #[trigger] after[k1] as int,
            ) by {
                let a: int = if k1 < pos { k1 } else { k1 - 1 };
                let b: int = if k2 < pos { k2 } else { k2 - 1 };
                if k1 != pos {
                    assert(after[k1] == before[a]);
                    assert(before[a] < i);
                }
                if k2 != pos {
                    assert(after[k2] == before[b]);
                    assert(before[b] < i);
                }
                if k1 != pos && k2 != pos {
                    assert(above(views(sprites), before[b] as int, before[a] as int));
                }
            }
            assert forall|s: int| 0 <= s < i + 1 implies #[trigger] listed(after, s) by {
                if s == i {
                    assert(after[pos as int] == s);
                } else {
                    assert(listed(before, s));
                    let k0 = choose|k: int| 0 <= k < before.len() && #[trigger] before[k] == s;
                    if k0 < pos {
                        assert(after[k0] == s);
                    } else {
                        assert(after[k0 + 1] == s);
                    }
                }
            }
        }
        i += 1;
    }
    order
}

/// Paints `sprites` by ascending layer into a fresh frame of `width` by `height` cells.
/// Where sprites overlap, the one painted last shows.
pub fn compose(sprites: &Vec<Sprite>, width: usize, height: usize) -> (frame: Frame)
    requires
        all_fit(views(sprites), width as nat, height as nat),
    ensures
        grid(&frame) == composed(views(sprites), width as nat, height as nat),
        is_grid(grid(&frame), width as nat, height as nat),
{
    let mut frame = new_frame(width, height);
    let order = draw_order(sprites);
    let mut k: usize = 0;
    while k < order.len()
        invariant
            k <= order@.len(),
            is_draw_order(order@, views(sprites)),
            all_fit(views(sprites), width as nat, height as nat),
            is_grid(grid(&frame), width as nat, height as nat),
            forall|x: int, y: int|
                0 <= x < width && 0 <= y < height ==> #[trigger] grid(&frame)[x][y] == painted(
                    views(sprites),
                    order@,
                    k as int,
                    x,
                    y,
                ),
        decreases order.len() - k,
    {
        let sprite = &sprites[order[k]];
        let ghost before = grid(&frame);
        proof {
            assert(views(sprites)[order@[k as int] as int] == sprite@);
            assert(sprite@.fits(width as nat, height as nat));
            lemma_drawn_is_grid(sprite@, before, width as nat, height as nat);
        }
        sprite.draw(&mut frame);
        k += 1;
    }
    proof {
        assert forall|x: int, y: int| 0 <= x < width && 0 <= y < height implies #[trigger] grid(&frame)[x][y]
            == composed_cell(views(sprites), x, y) by {
            lemma_painted_is_composed(views(sprites), order@, x, y);
        }
        assert(grid(&frame) =~~= composed(views(sprites), width as nat, height as nat));
    }
    frame
}

/// Whether every sprite lies inside a frame of `width` by `height` cells.
pub fn all_fit_in(sprites: &Vec<Sprite>, width: usize, height: usize) -> (fit: bool)
    ensures
        fit == all_fit(views(sprites), width as nat, height as nat),
{
    let mut i: usize = 0;
    while i < sprites.len()
        invariant
            i <= sprites@.len(),
            forall|j: int| 0 <= j < i ==> (#[trigger] views(sprites)[j]).fits(width as nat, height as nat),
        decreases sprites.len() - i,
    {
        assert(views(sprites)[i as int] == sprites@[i as int]@);
        if !sprites[i].fits_in(width, height) {
            return false;
        }
        i += 1;
    }
    true
}

/// Without sprites the composition is the blank frame.
pub proof fn lemma_no_sprites_compose_blank(width: nat, height: nat)
    ensures
        composed(Seq::<SpriteView>::empty(), width, height) == blank_grid(width, height),
{
    assert(composed(Seq::<SpriteView>::empty(), width, height) =~~= blank_grid(width, height));
}

/// The higher layer wins: where sprite `top` covers a cell and every other sprite that
/// covers it is on a lower layer, or on the same layer and earlier among the sprites,
/// the cell shows the glyph of `top`.
pub proof fn lemma_topmost_sprite_shows(sprites: Seq<SpriteView>, top: int, x: int, y: int)
    requires
        0 <= top < sprites.len(),
        sprites[top].covers(x, y),
        forall|j: int| 0 <= j < sprites.len() && j != top && (#[trigger] sprites[j]).covers(x, y) ==> above(sprites, top, j),
    ensures
        composed_cell(sprites, x, y) == sprites[top].glyph_at(x, y),
{
    lemma_top_sprite(sprites, sprites.len() as int, x, y);
    let picked = top_sprite(sprites, sprites.len() as int, x, y);
    assert(picked is Some);
    if picked.unwrap() != top {
        assert(above(sprites, top, picked.unwrap()));
        assert(above(sprites, picked.unwrap(), top));
    }
}

/// Of two sprites that overlap in a cell which no third sprite covers, the one on
/// the higher layer shows there.
pub proof fn lemma_higher_layer_wins(sprites: Seq<SpriteView>, low: int, high: int, x: int, y: int)
    requires
        0 <= low < sprites.len(),
        0 <= high < sprites.len(),
        sprites[low].covers(x, y),
        sprites[high].covers(x, y),
        sprites[low].layer < sprites[high].layer,
        forall|j: int| 0 <= j < sprites.len() && j != low && j != high ==> !(#[trigger] sprites[j]).covers(x, y),
    ensures
        composed_cell(sprites, x, y) == sprites[high].glyph_at(x, y),
{
    lemma_topmost_sprite_shows(sprites, high, x, y);
}

/// A single sprite shows its glyphs where it covers the frame, and the rest is blank.
pub proof fn lemma_single_sprite_shows(sprite: SpriteView, x: int, y: int)
    ensures
        composed_cell(seq![sprite], x, y) == if sprite.covers(x, y) {
            sprite.glyph_at(x, y)
        } else {
            BLANK
        },
{
    lemma_top_sprite(seq![sprite], 1, x, y);
}

} // verus!
