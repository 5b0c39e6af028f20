use tic_tac_toe::engine::layers::{all_fit_in, compose, draw_order};
use tic_tac_toe::engine::rendering::frame::new_frame;
use tic_tac_toe::engine::sprite::Sprite;
use vector2d::Vector2D;

fn sprite(text: &str, x: usize, y: usize, layer: i32) -> Sprite {
    let mut sprite = Sprite::from_string(text.to_string(), text.to_string());
    sprite.translation = Vector2D::new(x, y);
    sprite.layer = layer;
    sprite
}

#[test]
fn higher_layer_wins_where_sprites_overlap() {
    let a = sprite("A", 1, 1, 0);
    let b = sprite("B", 1, 1, 1);
    assert_eq!(compose(&vec![a, b], 3, 3)[1][1], 'B' as u32);
    let a = sprite("A", 1, 1, 0);
    let b = sprite("B", 1, 1, 1);
    assert_eq!(compose(&vec![b, a], 3, 3)[1][1], 'B' as u32);
}

#[test]
fn on_one_layer_the_later_sprite_wins() {
    let frame = compose(&vec![sprite("A", 0, 0, 5), sprite("B", 0, 0, 5)], 1, 1);
    assert_eq!(frame[0][0], 'B' as u32);
    let frame = compose(&vec![sprite("B", 0, 0, 5), sprite("A", 0, 0, 5)], 1, 1);
    assert_eq!(frame[0][0], 'A' as u32);
}

#[test]
fn negative_layers_lie_below() {
    let frame = compose(&vec![sprite("A", 0, 0, 0), sprite("B", 0, 0, -3)], 1, 1);
    assert_eq!(frame[0][0], 'A' as u32);
}

#[test]
fn invisible_sprites_do_not_show() {
    let mut top = sprite("T", 0, 0, 9);
    top.visible = false;
    let frame = compose(&vec![sprite("A", 0, 0, 0), top], 1, 1);
    assert_eq!(frame[0][0], 'A' as u32);
}

#[test]
fn compose_shows_each_sprite_where_nothing_covers_it() {
    let frame = compose(&vec![sprite("abc", 0, 0, 1), sprite("xy", 1, 0, 0), sprite("q", 3, 1, 0)], 4, 2);
    let shown: Vec<String> = (0..2).map(|y| (0..4).map(|x| char::from_u32(frame[x][y]).unwrap()).collect()).collect();
    assert_eq!(shown, vec!["abc ", "   q"]);
}

#[test]
fn compose_without_sprites_is_blank() {
    assert_eq!(compose(&Vec::new(), 3, 2), new_frame(3, 2));
}

#[test]
fn draw_order_is_by_layer_then_by_place() {
    let sprites = vec![sprite("a", 0, 0, 2), sprite("b", 0, 0, 0), sprite("c", 0, 0, 2), sprite("d", 0, 0, -1), sprite("e", 0, 0, 0)];
    assert_eq!(draw_order(&sprites), vec![3, 1, 4, 0, 2]);
    assert_eq!(draw_order(&Vec::new()), Vec::<usize>::new());
}

#[test]
fn all_fit_in_finds_the_sprite_that_reaches_outside() {
    assert!(all_fit_in(&vec![sprite("ab", 0, 0, 0), sprite("c", 2, 2, 0)], 3, 3));
    assert!(!all_fit_in(&vec![sprite("ab", 0, 0, 0), sprite("cd", 2, 2, 0)], 3, 3));
    assert!(all_fit_in(&Vec::new(), 0, 0));
}
