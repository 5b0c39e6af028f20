use tic_tac_toe::engine::keyboard::keyboard::Key;
use tic_tac_toe::engine::scene::Scene;
use tic_tac_toe::engine::sprite::Sprite;
use tic_tac_toe::engine::window::Window;
use tic_tac_toe::engine::Engine;
use tic_tac_toe::tictactoe::coordinates::BoardCoordinates;
use tic_tac_toe::tictactoe::game::Game;
use tic_tac_toe::tictactoe::logic::{
    base_logic, cursor_logic, decimal, find_place, fps_counter, game_movement, markers_logic, new_text_sprite,
    win_lose_logic, BaseLogic, CursorLogic, FpsCounter, GameMovement, MarkersLogic, WinLoseLogic, Y_FPS, Y_GRID,
    Y_INSTRUCTIONS, Y_TURN,
};
use tic_tac_toe::tictactoe::movement::MoveDirection;
use tic_tac_toe::tictactoe::player::Player;
use vector2d::Vector2D;

fn scene_with_grid(x: usize, y: usize) -> Scene {
    let mut grid = Sprite::from_string("grid".to_string(), "#".to_string());
    grid.translation = Vector2D::new(x, y);
    let mut scene = Scene::new(Window::new(50, 50));
    scene.insert_sprite("grid", grid);
    scene
}

fn text_of(sprite: &Sprite) -> String {
    (0..sprite.data.len()).map(|x| sprite.glyph(x, 0).unwrap()).collect()
}

fn placed(sprite: &Sprite) -> (usize, usize) {
    (sprite.translation.x, sprite.translation.y)
}

fn steer(game: &mut Game, to: (usize, usize)) {
    while game.cursor_position().x < to.0 {
        game.move_cursor(MoveDirection::RIGHT);
    }
    while game.cursor_position().x > to.0 {
        game.move_cursor(MoveDirection::LEFT);
    }
    while game.cursor_position().y < to.1 {
        game.move_cursor(MoveDirection::DOWN);
    }
    while game.cursor_position().y > to.1 {
        game.move_cursor(MoveDirection::UP);
    }
}

fn rows_of(frame: &Vec<Vec<u32>>, rows: usize, columns: usize) -> Vec<String> {
    (0..rows).map(|y| (0..columns).map(|x| char::from_u32(frame[x][y]).unwrap()).collect()).collect()
}

#[test]
fn decimal_writes_numbers_as_the_standard_library_does() {
    for n in [0u128, 1, 9, 10, 11, 99, 100, 101, 1000, 65535, u128::MAX] {
        assert_eq!(decimal(n), n.to_string());
    }
}

#[test]
fn a_text_sprite_is_one_row_on_layer_one() {
    let sprite = new_text_sprite("label", "héllo".to_string(), 4, 7);
    assert_eq!(sprite.label, "label");
    assert_eq!(text_of(&sprite), "héllo");
    assert_eq!(placed(&sprite), (4, 7));
    assert_eq!(sprite.layer, 1);
    assert_eq!(sprite.height, 1);
    assert!(sprite.visible);
}

#[test]
fn the_rows_of_the_screen_lie_as_laid_out() {
    assert_eq!((Y_TURN, Y_GRID, Y_INSTRUCTIONS, Y_FPS), (0, 2, 8, 10));
}

#[test]
fn marks_are_placed_by_the_grid() {
    let scene = scene_with_grid(3, 2);
    let at = find_place(&scene, BoardCoordinates::new(2, 1)).unwrap();
    assert_eq!((at.x, at.y), (12, 4));
    assert!(find_place(&Scene::new(Window::new(5, 5)), BoardCoordinates::new(0, 0)).is_none());
    assert!(find_place(&scene_with_grid(usize::MAX, 0), BoardCoordinates::new(0, 0)).is_none());
    assert!(find_place(&scene_with_grid(0, usize::MAX), BoardCoordinates::new(0, 1)).is_none());
    assert!(find_place(&scene_with_grid(0, usize::MAX), BoardCoordinates::new(0, 0)).is_some());
}

#[test]
fn escape_and_q_stop_the_engine() {
    for (keys, stops) in [
        (vec![], false),
        (vec![Key::Left, Key::Char('x')], false),
        (vec![Key::Left, Key::Esc], true),
        (vec![Key::Char('q'), Key::Left], true),
        (vec![Key::Char('Q')], false),
    ] {
        let mut scene = Scene::new(Window::new(1, 1));
        scene.begin_tick(0, keys);
        base_logic(&mut scene, &mut 0u8);
        assert_eq!(scene.is_stopped(), stops);
    }
}

#[test]
fn keys_move_the_cursor_and_play() {
    let mut scene = Scene::new(Window::new(1, 1));
    let mut game = Game::default();
    scene.begin_tick(0, vec![Key::Right, Key::Down, Key::Enter, Key::Char('x'), Key::Other, Key::Char(' ')]);
    game_movement(&mut scene, &mut game);
    assert_eq!(game.cell(1, 1), Player::ONE);
    assert_eq!(game.cell(0, 0), Player::TWO);
    assert_eq!(game.turn(), Player::ONE);
    let at = game.cursor_position();
    assert_eq!((at.x, at.y), (0, 1));
    scene.begin_tick(0, vec![Key::Up]);
    game_movement(&mut scene, &mut game);
    let at = game.cursor_position();
    assert_eq!((at.x, at.y), (1, 0));
    scene.begin_tick(0, vec![Key::Left]);
    game_movement(&mut scene, &mut game);
    let at = game.cursor_position();
    assert_eq!((at.x, at.y), (0, 1));
}

#[test]
fn the_cursor_sprite_follows_the_player_to_move() {
    let mut scene = scene_with_grid(0, 2);
    let mut game = Game::default();
    cursor_logic(&mut scene, &mut game);
    let p1 = scene.get_sprite("p1").unwrap();
    assert_eq!(p1.label, "cursor");
    assert_eq!(text_of(p1), "x");
    assert_eq!(placed(p1), (1, 2));
    assert_eq!(p1.layer, 1);
    assert!(scene.get_sprite("p2").is_none());
    game.play();
    cursor_logic(&mut scene, &mut game);
    assert!(scene.get_sprite("p1").is_none());
    let p2 = scene.get_sprite("p2").unwrap();
    assert_eq!(text_of(p2), "o");
    assert_eq!(placed(p2), (1, 4));
}

#[test]
fn the_cursor_sprite_needs_a_grid() {
    let mut scene = Scene::new(Window::new(5, 5));
    let mut game = Game::default();
    cursor_logic(&mut scene, &mut game);
    assert!(scene.get_sprite("p1").is_none());
    assert!(scene.get_sprite("p2").is_none());
}

#[test]
fn the_cursor_sprite_stays_once_the_game_is_over() {
    let mut scene = scene_with_grid(0, 0);
    let mut game = Game::default();
    scene.begin_tick(0, vec![Key::Enter, Key::Right, Key::Enter, Key::Enter, Key::Right, Key::Enter, Key::Enter]);
    game_movement(&mut scene, &mut game);
    assert_eq!(game.winner(), Player::ONE);
    cursor_logic(&mut scene, &mut game);
    assert!(scene.get_sprite("p1").is_none());
    assert!(scene.get_sprite("p2").is_none());
}

#[test]
fn every_owned_cell_gets_its_mark() {
    let mut scene = scene_with_grid(0, 2);
    let mut game = Game::default();
    scene.begin_tick(0, vec![Key::Enter, Key::Right, Key::Down, Key::Enter]);
    game_movement(&mut scene, &mut game);
    markers_logic(&mut scene, &mut game);
    let first = scene.get_sprite("0-0").unwrap();
    assert_eq!(first.label, "marker");
    assert_eq!(text_of(first), "X");
    assert_eq!(placed(first), (1, 2));
    assert_eq!(first.layer, 1);
    let second = scene.get_sprite("1-2").unwrap();
    assert_eq!(text_of(second), "O");
    assert_eq!(placed(second), (5, 6));
    for label in ["0-1", "0-2", "1-0", "1-1", "2-0", "2-1", "2-2"] {
        assert!(scene.get_sprite(label).is_none(), "{}", label);
    }
}

#[test]
fn the_status_line_tells_turn_winner_and_draw() {
    let mut scene = Scene::new(Window::new(50, 50));
    let mut game = Game::default();
    win_lose_logic(&mut scene, &mut game);
    let line = scene.get_sprite("win-lose").unwrap();
    assert_eq!(line.label, "win-lose");
    assert_eq!(text_of(line), "Turn: Player ONE");
    assert_eq!(placed(line), (0, 0));
    assert_eq!(line.layer, 1);
    game.play();
    win_lose_logic(&mut scene, &mut game);
    assert_eq!(text_of(scene.get_sprite("win-lose").unwrap()), "Turn: Player TWO");
    scene.begin_tick(0, vec![Key::Right, Key::Enter, Key::Enter, Key::Right, Key::Enter, Key::Enter]);
    game_movement(&mut scene, &mut game);
    win_lose_logic(&mut scene, &mut game);
    assert_eq!(text_of(scene.get_sprite("win-lose").unwrap()), "Winner: ONE");
}

#[test]
fn the_status_line_tells_a_draw() {
    let mut scene = Scene::new(Window::new(50, 50));
    let mut game = Game::default();
    for cell in [(0, 0), (1, 0), (2, 0), (1, 1), (0, 1), (2, 1), (1, 2), (0, 2), (2, 2)] {
        steer(&mut game, cell);
        game.play();
    }
    assert!(game.is_grid_filled());
    assert_eq!(game.winner(), Player::NONE);
    win_lose_logic(&mut scene, &mut game);
    assert_eq!(text_of(scene.get_sprite("win-lose").unwrap()), "Draw");
}

#[test]
fn the_tick_rate_is_shown_for_ticks_of_a_millisecond_or_more() {
    let mut scene = Scene::new(Window::new(50, 50));
    fps_counter(&mut scene, &mut 0u8);
    assert!(scene.get_sprite("fps").is_none());
    scene.begin_tick(16, vec![]);
    fps_counter(&mut scene, &mut 0u8);
    let line = scene.get_sprite("fps").unwrap();
    assert_eq!(line.label, "fps");
    assert_eq!(text_of(line), "FPS: 62");
    assert_eq!(placed(line), (0, 10));
    assert_eq!(line.layer, 1);
    scene.begin_tick(0, vec![]);
    fps_counter(&mut scene, &mut 0u8);
    assert_eq!(text_of(scene.get_sprite("fps").unwrap()), "FPS: 62");
    scene.begin_tick(2000, vec![]);
    fps_counter(&mut scene, &mut 0u8);
    assert_eq!(text_of(scene.get_sprite("fps").unwrap()), "FPS: 0");
}

#[test]
fn a_whole_game_tick_shows_board_cursor_and_status() {
    let grid = "   ┃   ┃\n━━━╋━━━╋━━━\n   ┃   ┃\n━━━╋━━━╋━━━\n   ┃   ┃".to_string();
    let mut grid = Sprite::from_file("grid".to_string(), Some(grid)).unwrap();
    grid.translation = Vector2D::new(0, Y_GRID);
    let mut engine: Engine<Game> = Engine::new(Window::new(20, 12))
        .with_sprite("grid", grid)
        .with_logic(Box::new(BaseLogic {}))
        .with_logic(Box::new(GameMovement {}))
        .with_logic(Box::new(CursorLogic {}))
        .with_logic(Box::new(MarkersLogic {}))
        .with_logic(Box::new(WinLoseLogic {}))
        .with_logic(Box::new(FpsCounter {}));
    let mut game = Game::default();
    let frame = engine.tick(&mut game, 20, vec![Key::Enter, Key::Right]).unwrap();
    let shown = rows_of(&frame, 12, 20);
    assert_eq!(
        shown,
        vec![
            "Turn: Player TWO    ",
            "                    ",
            " X ┃   ┃            ",
            "━━━╋━━━╋━━━         ",
            "   ┃ o ┃            ",
            "━━━╋━━━╋━━━         ",
            "   ┃   ┃            ",
            "                    ",
            "                    ",
            "                    ",
            "FPS: 50             ",
            "                    ",
        ]
    );
    assert!(engine.is_running());
    engine.tick(&mut game, 20, vec![Key::Char('q')]).unwrap();
    assert!(!engine.is_running());
}
