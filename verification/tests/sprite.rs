use tic_tac_toe::engine::drawable::Drawable;
use tic_tac_toe::engine::rendering::frame::new_frame;
use tic_tac_toe::engine::resource::{split_lines, string_to_utf8};
use tic_tac_toe::engine::sprite::{transpose, LoadError, Sprite};
use vector2d::Vector2D;

fn row(sprite: &Sprite, y: usize) -> String {
    (0..sprite.data.len()).map(|x| sprite.glyph(x, y).unwrap()).collect()
}

#[test]
fn from_string_makes_one_row() {
    let sprite = Sprite::from_string("hello".to_string(), "abc".to_string());
    assert_eq!(sprite.label, "hello");
    assert!(sprite.visible);
    assert_eq!(sprite.layer, 0);
    assert_eq!((sprite.translation.x, sprite.translation.y), (0, 0));
    assert_eq!(sprite.height, 1);
    assert_eq!(sprite.data.len(), 3);
    assert_eq!(row(&sprite, 0), "abc");
    assert_eq!(sprite.glyph(0, 1), None);
    assert_eq!(sprite.glyph(3, 0), None);
}

#[test]
fn from_string_counts_characters_not_bytes() {
    let sprite = Sprite::from_string("grid".to_string(), "┃é━".to_string());
    assert_eq!(sprite.data.len(), 3);
    assert_eq!(sprite.glyph(0, 0), Some('┃'));
    assert_eq!(sprite.glyph(1, 0), Some('é'));
    assert_eq!(sprite.glyph(2, 0), Some('━'));
}

#[test]
fn from_string_of_nothing_has_no_columns() {
    let sprite = Sprite::from_string("empty".to_string(), String::new());
    assert_eq!(sprite.data.len(), 0);
    assert_eq!(sprite.height, 1);
}

#[test]
fn from_file_pads_rows_to_the_longest_line() {
    let text = "ab\nabcd\n\nxyz".to_string();
    let sprite = Sprite::from_file("s".to_string(), Some(text)).unwrap();
    assert_eq!(sprite.label, "s");
    assert_eq!(sprite.height, 4);
    assert_eq!(sprite.data.len(), 4);
    assert!(sprite.data.iter().all(|column| column.len() == 4));
    assert_eq!(row(&sprite, 0), "ab  ");
    assert_eq!(row(&sprite, 1), "abcd");
    assert_eq!(row(&sprite, 2), "    ");
    assert_eq!(row(&sprite, 3), "xyz ");
    assert!(sprite.visible);
    assert_eq!(sprite.layer, 0);
    assert_eq!((sprite.translation.x, sprite.translation.y), (0, 0));
}

#[test]
fn from_file_measures_lines_in_characters() {
    let text = "━━━\nab".to_string();
    let sprite = Sprite::from_file("s".to_string(), Some(text)).unwrap();
    assert_eq!(sprite.data.len(), 3);
    assert_eq!(sprite.height, 2);
    assert_eq!(row(&sprite, 0), "━━━");
    assert_eq!(row(&sprite, 1), "ab ");
}

#[test]
fn from_file_ignores_the_final_line_ending() {
    let with = Sprite::from_file("s".to_string(), Some("ab\ncd\n".to_string())).unwrap();
    let without = Sprite::from_file("s".to_string(), Some("ab\ncd".to_string())).unwrap();
    assert_eq!(with.height, 2);
    assert_eq!(with.data, without.data);
}

#[test]
fn from_file_of_empty_lines_keeps_their_number() {
    let sprite = Sprite::from_file("s".to_string(), Some("\n\n".to_string())).unwrap();
    assert_eq!(sprite.height, 2);
    assert_eq!(sprite.data.len(), 0);
}

#[test]
fn from_file_that_could_not_be_read_is_an_error() {
    let loaded = Sprite::from_file("s".to_string(), None);
    assert!(matches!(loaded, Err(LoadError::Unreadable)));
}

#[test]
fn load_error_has_a_message() {
    assert_eq!(LoadError::Unreadable.message(), "Could not load sprite from file.");
}

#[test]
fn split_lines_agrees_with_the_standard_library() {
    let texts = [
        "", "a", "a\n", "a\nb", "a\r\nb\r\n", "\n", "\n\n", "a\rb", "a\r", "\r\n", "a\n\nb", "\r\r\n", "x\n\r", "é\n━",
    ];
    for text in texts {
        let expected: Vec<Vec<char>> = text.lines().map(|line| line.chars().collect()).collect();
        assert_eq!(split_lines(text), expected, "for {:?}", text);
    }
}

#[test]
fn split_lines_strips_carriage_return_only_before_line_feed() {
    assert_eq!(split_lines("ab\r\ncd"), vec![vec!['a', 'b'], vec!['c', 'd']]);
    assert_eq!(split_lines("ab\rcd"), vec![vec!['a', 'b', '\r', 'c', 'd']]);
    assert_eq!(split_lines("ab\r"), vec![vec!['a', 'b', '\r']]);
}

#[test]
fn string_to_utf8_gives_the_characters() {
    assert_eq!(string_to_utf8("a┃c"), vec!['a', '┃', 'c']);
    assert_eq!(string_to_utf8(""), Vec::<char>::new());
}

#[test]
fn transpose_swaps_rows_and_columns() {
    let rows = vec![vec![1, 2, 3], vec![4, 5, 6]];
    assert_eq!(transpose(rows), vec![vec![1, 4], vec![2, 5], vec![3, 6]]);
}

#[test]
fn transpose_of_one_empty_row_is_empty() {
    let rows: Vec<Vec<u8>> = vec![vec![]];
    assert_eq!(transpose(rows), Vec::<Vec<u8>>::new());
}

#[test]
fn draw_writes_the_patch_at_its_translation() {
    let mut sprite = Sprite::from_file("s".to_string(), Some("ab\ncd".to_string())).unwrap();
    sprite.translation = Vector2D::new(2, 1);
    let mut frame = new_frame(5, 4);
    sprite.draw(&mut frame);
    for x in 0..5 {
        for y in 0..4 {
            let expected = match (x, y) {
                (2, 1) => 'a',
                (3, 1) => 'b',
                (2, 2) => 'c',
                (3, 2) => 'd',
                _ => ' ',
            };
            assert_eq!(frame[x][y], expected as u32, "cell ({}, {})", x, y);
        }
    }
}

#[test]
fn draw_of_an_invisible_sprite_writes_nothing() {
    let mut sprite = Sprite::from_string("s".to_string(), "abc".to_string());
    sprite.visible = false;
    let mut frame = new_frame(3, 1);
    sprite.draw(&mut frame);
    assert_eq!(frame, new_frame(3, 1));
}

#[test]
fn draw_overwrites_what_was_there() {
    let mut frame = new_frame(2, 1);
    Sprite::from_string("a".to_string(), "xy".to_string()).draw(&mut frame);
    Sprite::from_string("b".to_string(), "z".to_string()).draw(&mut frame);
    assert_eq!(frame[0][0], 'z' as u32);
    assert_eq!(frame[1][0], 'y' as u32);
}

#[test]
fn fits_in_tells_whether_the_patch_stays_inside() {
    let mut sprite = Sprite::from_file("s".to_string(), Some("ab\ncd".to_string())).unwrap();
    assert!(sprite.fits_in(2, 2));
    assert!(!sprite.fits_in(1, 2));
    assert!(!sprite.fits_in(2, 1));
    sprite.translation = Vector2D::new(3, 4);
    assert!(sprite.fits_in(5, 6));
    assert!(!sprite.fits_in(4, 6));
    assert!(!sprite.fits_in(5, 5));
    sprite.translation = Vector2D::new(usize::MAX, usize::MAX);
    assert!(!sprite.fits_in(usize::MAX, usize::MAX));
}

#[test]
fn fits_in_holds_for_what_draws_nothing() {
    let mut hidden = Sprite::from_string("s".to_string(), "abc".to_string());
    hidden.visible = false;
    assert!(hidden.fits_in(0, 0));
    let mut empty = Sprite::from_string("s".to_string(), String::new());
    empty.translation = Vector2D::new(100, 100);
    assert!(empty.fits_in(1, 1));
}
