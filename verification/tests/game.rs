use tic_tac_toe::tictactoe::coordinates::BoardCoordinates;
use tic_tac_toe::tictactoe::game::Game;
use tic_tac_toe::tictactoe::movement::MoveDirection;
use tic_tac_toe::tictactoe::player::Player;
use vector2d::Vector2D;

fn cursor(game: &Game) -> (usize, usize) {
    let cell = game.cursor_position();
    (cell.x, cell.y)
}

fn go(game: &mut Game, to: (usize, usize)) {
    while cursor(game).0 < to.0 {
        game.move_cursor(MoveDirection::RIGHT);
    }
    while cursor(game).0 > to.0 {
        game.move_cursor(MoveDirection::LEFT);
    }
    while cursor(game).1 < to.1 {
        game.move_cursor(MoveDirection::DOWN);
    }
    while cursor(game).1 > to.1 {
        game.move_cursor(MoveDirection::UP);
    }
    assert_eq!(cursor(game), to);
}

fn play_at(game: &mut Game, cells: &[(usize, usize)]) {
    for cell in cells {
        go(game, *cell);
        game.play();
    }
}

#[test]
fn a_new_game_is_empty_and_player_one_moves() {
    let game = Game::default();
    assert_eq!(game.turn(), Player::ONE);
    assert_eq!(game.winner(), Player::NONE);
    assert_eq!(cursor(&game), (0, 0));
    for x in 0..3 {
        for y in 0..3 {
            assert_eq!(game.cell(x, y), Player::NONE);
        }
    }
    assert_eq!(game.cell(3, 0), Player::NONE);
    assert!(!game.is_grid_filled());
    assert!(!game.is_game_over());
}

#[test]
fn play_takes_the_cell_and_passes_the_turn() {
    let mut game = Game::default();
    game.play();
    assert_eq!(game.cell(0, 0), Player::ONE);
    assert_eq!(game.turn(), Player::TWO);
    assert_eq!(cursor(&game), (0, 1));
    game.play();
    assert_eq!(game.cell(0, 1), Player::TWO);
    assert_eq!(game.turn(), Player::ONE);
    assert_eq!(cursor(&game), (0, 2));
    assert_eq!(game.winner(), Player::NONE);
}

#[test]
fn the_cursor_moves_to_the_nearest_empty_cell() {
    let mut game = Game::default();
    game.move_cursor(MoveDirection::RIGHT);
    assert_eq!(cursor(&game), (1, 0));
    game.move_cursor(MoveDirection::DOWN);
    assert_eq!(cursor(&game), (1, 1));
    game.move_cursor(MoveDirection::LEFT);
    assert_eq!(cursor(&game), (0, 1));
    game.move_cursor(MoveDirection::UP);
    assert_eq!(cursor(&game), (0, 0));
}

#[test]
fn the_cursor_stays_at_the_edge_of_an_empty_board() {
    let mut game = Game::default();
    game.move_cursor(MoveDirection::UP);
    assert_eq!(cursor(&game), (0, 0));
    game.move_cursor(MoveDirection::LEFT);
    assert_eq!(cursor(&game), (0, 0));
    go(&mut game, (2, 2));
    game.move_cursor(MoveDirection::DOWN);
    assert_eq!(cursor(&game), (2, 2));
    game.move_cursor(MoveDirection::RIGHT);
    assert_eq!(cursor(&game), (2, 2));
}

#[test]
fn the_cursor_jumps_over_taken_cells() {
    let mut game = Game::default();
    play_at(&mut game, &[(1, 0)]);
    assert_eq!(cursor(&game), (0, 0));
    game.move_cursor(MoveDirection::RIGHT);
    assert_eq!(cursor(&game), (2, 0));
    game.move_cursor(MoveDirection::LEFT);
    assert_eq!(cursor(&game), (0, 0));
}

#[test]
fn the_cursor_takes_a_detour_when_its_line_is_full() {
    let mut game = Game::default();
    play_at(&mut game, &[(0, 1), (0, 2)]);
    assert_eq!(cursor(&game), (0, 0));
    game.move_cursor(MoveDirection::DOWN);
    assert_eq!(cursor(&game), (1, 1));
    let mut game = Game::default();
    play_at(&mut game, &[(1, 0), (2, 0)]);
    assert_eq!(cursor(&game), (0, 0));
    game.move_cursor(MoveDirection::RIGHT);
    assert_eq!(cursor(&game), (1, 1));
}

#[test]
fn a_column_of_one_player_wins() {
    let mut game = Game::default();
    play_at(&mut game, &[(0, 0), (1, 0), (0, 1), (1, 1), (0, 2)]);
    assert_eq!(game.winner(), Player::ONE);
    assert!(game.is_game_over());
    assert!(!game.is_grid_filled());
}

#[test]
fn a_row_of_one_player_wins() {
    let mut game = Game::default();
    play_at(&mut game, &[(0, 0), (0, 1), (2, 2), (1, 1), (0, 2), (2, 1)]);
    assert_eq!(game.winner(), Player::TWO);
    assert!(game.is_game_over());
}

#[test]
fn the_diagonals_win() {
    let mut game = Game::default();
    play_at(&mut game, &[(0, 0), (1, 0), (1, 1), (2, 0), (2, 2)]);
    assert_eq!(game.winner(), Player::ONE);
    let mut game = Game::default();
    play_at(&mut game, &[(0, 0), (2, 0), (1, 0), (1, 1), (2, 2), (0, 2)]);
    assert_eq!(game.winner(), Player::TWO);
}

#[test]
fn nothing_is_played_once_the_game_is_over() {
    let mut game = Game::default();
    play_at(&mut game, &[(0, 0), (1, 0), (0, 1), (1, 1), (0, 2)]);
    let at = cursor(&game);
    assert_eq!(game.cell(at.0, at.1), Player::NONE);
    game.play();
    assert_eq!(game.cell(at.0, at.1), Player::NONE);
    assert_eq!(game.turn(), Player::TWO);
    assert_eq!(game.winner(), Player::ONE);
}

#[test]
fn a_full_board_without_a_line_is_a_draw() {
    let mut game = Game::default();
    play_at(&mut game, &[(0, 0), (1, 0), (2, 0), (1, 1), (0, 1), (2, 1), (1, 2), (0, 2), (2, 2)]);
    assert_eq!(game.winner(), Player::NONE);
    assert!(game.is_grid_filled());
    assert!(game.is_game_over());
    assert_eq!(game.turn(), Player::TWO);
}

#[test]
fn players_have_names() {
    assert_eq!(Player::ONE.name(), "ONE");
    assert_eq!(Player::TWO.name(), "TWO");
    assert_eq!(Player::NONE.name(), "NONE");
    assert_eq!(format!("{:?}", Player::ONE), "ONE");
}

#[test]
fn board_cells_lie_four_columns_and_two_rows_apart() {
    let origin = Vector2D::new(0, 0);
    let at = BoardCoordinates::new(0, 0).to_frame_coordinates(&origin);
    assert_eq!((at.x, at.y), (1, 0));
    let at = BoardCoordinates::new(2, 1).to_frame_coordinates(&origin);
    assert_eq!((at.x, at.y), (9, 2));
    let at = BoardCoordinates::new(1, 2).to_frame_coordinates(&Vector2D::new(3, 2));
    assert_eq!((at.x, at.y), (8, 6));
    let cell = BoardCoordinates::new(5, 7);
    assert_eq!((cell.x, cell.y), (5, 7));
}
