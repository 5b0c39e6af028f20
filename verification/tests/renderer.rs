use tic_tac_toe::engine::rendering::frame::{new_frame, Frame};
use tic_tac_toe::engine::rendering::renderer::{is_frame, render, CellWrite, RenderError, Renderer};

fn frame_of(rows: &[&str]) -> Frame {
    let height = rows.len();
    let width = rows[0].chars().count();
    let mut frame = new_frame(width, height);
    for (y, row) in rows.iter().enumerate() {
        for (x, glyph) in row.chars().enumerate() {
            frame[x][y] = glyph as u32;
        }
    }
    frame
}

#[test]
fn rendering_the_same_frame_again_writes_nothing() {
    let frame = frame_of(&["ab", "cd"]);
    assert_eq!(render(&frame, &frame, false), Vec::new());
    let mut renderer = Renderer::new(2, 2);
    assert_eq!(renderer.send(frame_of(&["ab", "cd"])).unwrap().len(), 4);
    assert_eq!(renderer.send(frame_of(&["ab", "cd"])), Ok(Vec::new()));
}

#[test]
fn the_first_render_writes_every_cell() {
    let renderer = Renderer::new(3, 2);
    let planned = renderer.run();
    let expected: Vec<CellWrite> =
        (0..3).flat_map(|x| (0..2).map(move |y| CellWrite { x, y, glyph: ' ' })).collect();
    assert_eq!(planned, expected);
}

#[test]
fn a_forced_render_writes_every_cell_whatever_was_shown() {
    let frame = frame_of(&["ab", "cd"]);
    let planned = render(&frame, &frame, true);
    assert_eq!(
        planned,
        vec![
            CellWrite { x: 0, y: 0, glyph: 'a' },
            CellWrite { x: 0, y: 1, glyph: 'c' },
            CellWrite { x: 1, y: 0, glyph: 'b' },
            CellWrite { x: 1, y: 1, glyph: 'd' },
        ]
    );
}

#[test]
fn render_writes_only_the_cells_that_changed() {
    let previous = frame_of(&["abc", "def"]);
    let next = frame_of(&["abX", "dYf"]);
    assert_eq!(
        render(&previous, &next, false),
        vec![CellWrite { x: 1, y: 1, glyph: 'Y' }, CellWrite { x: 2, y: 0, glyph: 'X' }]
    );
}

#[test]
fn render_carries_glyphs_beyond_ascii() {
    let previous = new_frame(1, 1);
    let next = frame_of(&["┃"]);
    assert_eq!(render(&previous, &next, false), vec![CellWrite { x: 0, y: 0, glyph: '┃' }]);
}

#[test]
fn frames_are_taken_in_order_and_the_last_stays_on_display() {
    let mut renderer = Renderer::new(2, 1);
    let f1 = frame_of(&["a "]);
    let f2 = frame_of(&["ab"]);
    let f3 = frame_of(&[" b"]);
    assert_eq!(renderer.send(f1.clone()), Ok(vec![CellWrite { x: 0, y: 0, glyph: 'a' }]));
    assert_eq!(renderer.previous_frame(), &f1);
    assert_eq!(renderer.send(f2.clone()), Ok(vec![CellWrite { x: 1, y: 0, glyph: 'b' }]));
    assert_eq!(renderer.previous_frame(), &f2);
    assert_eq!(renderer.send(f3.clone()), Ok(vec![CellWrite { x: 0, y: 0, glyph: ' ' }]));
    assert_eq!(renderer.previous_frame(), &f3);
}

#[test]
fn a_new_renderer_shows_the_blank_frame() {
    let renderer = Renderer::new(4, 3);
    assert_eq!(renderer.previous_frame(), &new_frame(4, 3));
    let default = Renderer::default();
    assert_eq!(default.previous_frame(), &new_frame(50, 50));
}

#[test]
fn a_frame_of_another_size_is_refused() {
    let mut renderer = Renderer::new(2, 2);
    assert_eq!(renderer.send(new_frame(2, 3)), Err(RenderError::BadFrame));
    assert_eq!(renderer.send(new_frame(3, 2)), Err(RenderError::BadFrame));
    assert_eq!(renderer.previous_frame(), &new_frame(2, 2));
}

#[test]
fn a_frame_with_a_number_that_is_no_glyph_is_refused() {
    let mut renderer = Renderer::new(1, 1);
    assert_eq!(renderer.send(vec![vec![0xD800]]), Err(RenderError::BadFrame));
    assert_eq!(renderer.send(vec![vec![0x110000]]), Err(RenderError::BadFrame));
    assert_eq!(renderer.send(vec![vec![0x10FFFF]]).unwrap().len(), 1);
}

#[test]
fn is_frame_checks_size_and_glyphs() {
    assert!(is_frame(&new_frame(2, 3), 2, 3));
    assert!(!is_frame(&new_frame(2, 3), 3, 2));
    assert!(is_frame(&vec![vec![0xD7FF, 0xE000]], 1, 2));
    assert!(!is_frame(&vec![vec![0xDFFF, 0xE000]], 1, 2));
    assert!(!is_frame(&vec![vec![32], vec![]], 2, 1));
}
