//! The logic of the game, tick by tick: keys move the cursor and place marks, and
//! sprites show the cursor, the marks, whose turn it is, and the tick rate.

use vstd::prelude::*;
use vstd::string::StringExecFns;
use vector2d::Vector2D;
use crate::engine::keyboard::keyboard::Key;
use crate::engine::scene::{Scene, SceneView};
use crate::engine::sprite::{Sprite, SpriteView};
use crate::engine::Logic;
use crate::tictactoe::coordinates::{BoardCoordinates, FrameCoordinates};
use crate::tictactoe::game::{filled, moved, Game, GameView, BOARD_SIZE};
use crate::tictactoe::movement::MoveDirection;
use crate::tictactoe::player::Player;

verus! {

/// The height of the grid's picture, in rows.
pub const GRID_HEIGHT: usize = 5;

/// The frame row of the grid.
pub const Y_GRID: usize = 2;

/// The frame row of the line that explains the keys: one row below the grid.
pub const Y_INSTRUCTIONS: usize = Y_GRID + GRID_HEIGHT + 1;

/// The frame row of the line that tells whose turn it is.
pub const Y_TURN: usize = 0;

/// The frame row of the line that shows the tick rate.
pub const Y_FPS: usize = Y_INSTRUCTIONS + 2;

/// The decimal digit for `d`.
pub open spec fn digit(d: nat) -> char {
    if d == 0 {
        '0'
    } else if d == 1 {
        '1'
    } else if d == 2 {
        '2'
    } else if d == 3 {
        '3'
    } else if d == 4 {
        '4'
    } else if d == 5 {
        '5'
    } else if d == 6 {
        '6'
    } else if d == 7 {
        '7'
    } else if d == 8 {
        '8'
    } else {
        '9'
    }
}

/// `n` in decimal digits, without leading zeros.
pub open spec fn digits(n: nat) -> Seq<char>
    decreases n,
{
    if n < 10 {
        seq![digit(n)]
    } else {
        digits(n / 10).push(digit(n % 10))
    }
}

/// A sprite of one row that shows `text` at `(x, y)`, on layer 1.
pub open spec fn text_sprite(label: Seq<char>, text: Seq<char>, x: nat, y: nat) -> SpriteView {
    SpriteView {
        label,
        columns: Seq::new(text.len(), |i: int| seq![text[i]]),
        height: 1,
        visible: true,
        x,
        y,
        layer: 1,
    }
}

/// Where the mark of `cell` goes in a frame: by the place of the sprite `grid`. There
/// is no such place if the scene has no such sprite, or if the place is beyond what
/// the machine can count.
pub open spec fn place(scene: SceneView, cell: BoardCoordinates) -> Option<FrameCoordinates> {
    match scene.sprite("grid"@) {
        Some(grid) => if cell.frame_x(grid.x as int) <= usize::MAX && cell.frame_y(grid.y as int) <= usize::MAX {
            Some(
                FrameCoordinates {
                    x: cell.frame_x(grid.x as int) as usize,
                    y: cell.frame_y(grid.y as int) as usize,
                },
            )
        } else {
            None
        },
        None => None,
    }
}

/// Whether one of `keys` asks to leave the game: escape, or the letter q.
pub open spec fn asks_to_quit(keys: Seq<Key>) -> bool {
    exists|i: int| 0 <= i < keys.len() && (#[trigger] keys[i] == Key::Esc || keys[i] == Key::Char('q'))
}

/// The game after one key: an arrow moves the cursor, enter or the space bar plays.
pub open spec fn after_key(game: GameView, key: Key) -> GameView {
    match key {
        Key::Left => GameView { cursor: moved(game.state, game.cursor, MoveDirection::LEFT), ..game },
        Key::Right => GameView { cursor: moved(game.state, game.cursor, MoveDirection::RIGHT), ..game },
        Key::Up => GameView { cursor: moved(game.state, game.cursor, MoveDirection::UP), ..game },
        Key::Down => GameView { cursor: moved(game.state, game.cursor, MoveDirection::DOWN), ..game },
        Key::Enter => game.played(),
        Key::Char(c) => if c == ' ' {
            game.played()
        } else {
            game
        },
        _ => game,
    }
}

/// The game after `keys`, one after the other.
pub open spec fn after_keys(game: GameView, keys: Seq<Key>) -> GameView
    decreases keys.len(),
{
    if keys.len() == 0 {
        game
    } else {
        after_key(after_keys(game, keys.drop_last()), keys.last())
    }
}

/// The scene with the cursor of the player to move, shown on the cell under the cursor
/// as a small letter: `p1` shows an x for player one, `p2` an o for player two, and
/// only one of the two is there. Once the game is over the scene stays as it is.
pub open spec fn with_cursor(scene: SceneView, game: GameView) -> SceneView {
    if game.game_over() {
        scene
    } else {
        match place(scene, game.cursor) {
            None => scene,
            Some(at) => match game.turn {
                Player::ONE => scene.without_sprite("p2"@).with_sprite(
                    "p1"@,
                    text_sprite("cursor"@, "x"@, at.x as nat, at.y as nat),
                ),
                Player::TWO => scene.without_sprite("p1"@).with_sprite(
                    "p2"@,
                    text_sprite("cursor"@, "o"@, at.x as nat, at.y as nat),
                ),
                Player::NONE => scene,
            },
        }
    }
}

/// The label of the mark in column `x` and row `y`: the two numbers with a hyphen between.
pub open spec fn marker_label(x: nat, y: nat) -> Seq<char> {
    digits(x) + "-"@ + digits(y)
}

/// The scene with the mark of the cell `(x, y)`, if the cell has an owner: a capital X
/// for player one, a capital O for player two.
pub open spec fn with_marker(scene: SceneView, game: GameView, x: int, y: int) -> SceneView {
    let owner = game.state[x][y];
    match place(scene, BoardCoordinates { x: x as usize, y: y as usize }) {
        Some(at) => if owner == Player::NONE {
            scene
        } else {
            scene.with_sprite(
                marker_label(x as nat, y as nat),
                text_sprite(
                    "marker"@,
                    if owner == Player::ONE {
                        "X"@
                    } else {
                        "O"@
                    },
                    at.x as nat,
                    at.y as nat,
                ),
            )
        },
        None => scene,
    }
}

/// The scene with the marks of the first `n` cells, counted down the columns.
pub open spec fn with_markers(scene: SceneView, game: GameView, n: int) -> SceneView
    decreases n,
{
    if n <= 0 {
        scene
    } else {
        with_marker(with_markers(scene, game, n - 1), game, (n - 1) / 3, (n - 1) % 3)
    }
}

/// The line that tells how the game stands.
pub open spec fn status_text(game: GameView) -> Seq<char> {
    if game.winner != Player::NONE {
        "Winner: "@ + game.winner.name_text()
    } else if filled(game.state) {
        "Draw"@
    } else {
        "Turn: Player "@ + game.turn.name_text()
    }
}

/// The scene with the line that tells how the game stands, in the first row.
pub open spec fn with_status(scene: SceneView, game: GameView) -> SceneView {
    scene.without_sprite("win-lose"@).with_sprite(
        "win-lose"@,
        text_sprite("win-lose"@, status_text(game), 0, Y_TURN as nat),
    )
}

/// The scene with the tick rate: the number of ticks of the last length that fit in a
/// second. A tick of less than a millisecond leaves the line as it was.
pub open spec fn with_fps(scene: SceneView) -> SceneView {
    if scene.delta > 0 {
        scene.without_sprite("fps"@).with_sprite(
            "fps"@,
            text_sprite("fps"@, "FPS: "@ + digits((1000int / (scene.delta as int)) as nat), 0, Y_FPS as nat),
        )
    } else {
        scene
    }
}

/// The one digit of `d`.
fn digit_text(d: u128) -> (text: &'static str)
    requires
        d < 10,
    ensures
        text@ == seq![digit(d as nat)],
{
    proof {
        reveal_strlit("0");
        reveal_strlit("1");
        reveal_strlit("2");
        reveal_strlit("3");
        reveal_strlit("4");
        reveal_strlit("5");
        reveal_strlit("6");
        reveal_strlit("7");
        reveal_strlit("8");
        reveal_strlit("9");
    }
    let text = if d == 0 {
        "0"
    } else if d == 1 {
        "1"
    } else if d == 2 {
        "2"
    } else if d == 3 {
        "3"
    } else if d == 4 {
        "4"
    } else if d == 5 {
        "5"
    } else if d == 6 {
        "6"
    } else if d == 7 {
        "7"
    } else if d == 8 {
        "8"
    } else {
        "9"
    };
    assert(text@ =~= seq![digit(d as nat)]);
    text
}

/// `n` written in decimal digits.
pub fn decimal(n: u128) -> (text: String)
    ensures
        text@ == digits(n as nat),
    decreases n,
{
    if n < 10 {
        digit_text(n).to_owned()
    } else {
        let mut text = decimal(n / 10);
        text.append(digit_text(n % 10));
        assert(text@ =~= digits(n as nat));
        text
    }
}

/// A sprite of one row that shows `text` at `(x, y)`, on layer 1.
pub fn new_text_sprite(label: &str, text: String, x: usize, y: usize) -> (sprite: Sprite)
    ensures
        sprite@ == text_sprite(label@, text@, x as nat, y as nat),
{
    let mut sprite = Sprite::from_string(label.to_owned(), text);
    sprite.translation = Vector2D::new(x, y);
    sprite.layer = 1;
    sprite
}

/// Where the mark of `cell` goes in a frame.
pub fn find_place(scene: &Scene, cell: BoardCoordinates) -> (at: Option<FrameCoordinates>)
    ensures
        at == place(scene@, cell),
{
    match scene.get_sprite("grid") {
        None => None,
        Some(grid) => {
            let x = match cell.x.checked_mul(4) {
                Some(x4) => match x4.checked_add(1) {
                    Some(x41) => x41.checked_add(grid.translation.x),
                    None => None,
                },
                None => None,
            };
            let y = match cell.y.checked_mul(2) {
                Some(y2) => y2.checked_add(grid.translation.y),
                None => None,
            };
            if x.is_some() && y.is_some() {
                Some(cell.to_frame_coordinates(&grid.translation))
            } else {
                None
            }
        },
    }
}

/// Stops the engine when escape or the letter q was pressed.
pub fn base_logic<T>(scene: &mut Scene, state: &mut T)
    ensures
        final(scene)@ == (SceneView { stop: old(scene)@.stop || asks_to_quit(old(scene)@.keys), ..old(scene)@ }),
        *final(state) == *old(state),
{
    let keys = scene.get_pressed_keys();
    let mut i: usize = 0;
    while i < keys.len()
        invariant
            i <= keys@.len(),
            keys@ == old(scene)@.keys,
            scene@ == (SceneView { stop: old(scene)@.stop || asks_to_quit(keys@.take(i as int)), ..old(scene)@ }),
        decreases keys.len() - i,
    {
        let quits = match keys[i] {
            Key::Esc => true,
            Key::Char(c) => c == 'q',
            _ => false,
        };
        proof {
            let before = keys@.take(i as int);
            let after = keys@.take(i as int + 1);
            if quits {
                assert(after[i as int] == Key::Esc || after[i as int] == Key::Char('q'));
            }
            if asks_to_quit(before) {
                let j = choose|j: int| 0 <= j < before.len() && (#[trigger] before[j] == Key::Esc || before[j] == Key::Char('q'));
                assert(after[j] == before[j]);
            }
            if asks_to_quit(after) && !quits {
                let j = choose|j: int| 0 <= j < after.len() && (#[trigger] after[j] == Key::Esc || after[j] == Key::Char('q'));
                assert(before[j] == after[j]);
            }
        }
        if quits {
            scene.stop();
        }
        i += 1;
    }
    assert(keys@.take(keys@.len() as int) =~= keys@);
}

/// Works the keys of the tick into the game: the arrows move the cursor, enter and
/// the space bar play.
pub fn game_movement(scene: &mut Scene, game: &mut Game)
    ensures
        final(scene)@ == old(scene)@,
        final(game)@ == after_keys(old(game)@, old(scene)@.keys),
{
    let keys = scene.get_pressed_keys();
    let mut i: usize = 0;
    assert(keys@.take(0) =~= Seq::<Key>::empty());
    while i < keys.len()
        invariant
            i <= keys@.len(),
            game@ == after_keys(old(game)@, keys@.take(i as int)),
        decreases keys.len() - i,
    {
        proof {
            assert(keys@.take(i as int + 1).drop_last() =~= keys@.take(i as int));
        }
        match keys[i] {
            Key::Left => {
                game.move_cursor(MoveDirection::LEFT);
            },
            Key::Right => {
                game.move_cursor(MoveDirection::RIGHT);
            },
            Key::Up => {
                game.move_cursor(MoveDirection::UP);
            },
            Key::Down => {
                game.move_cursor(MoveDirection::DOWN);
            },
            Key::Enter => {
                game.play();
            },
            Key::Char(c) => {
                if c == ' ' {
                    game.play();
                }
            },
            _ => {},
        }
        i += 1;
    }
    assert(keys@.take(keys@.len() as int) =~= keys@);
}

/// Shows the cursor of the player to move on the cell under the cursor.
pub fn cursor_logic(scene: &mut Scene, game: &mut Game)
    ensures
        final(scene)@ == with_cursor(old(scene)@, old(game)@),
        final(game)@ == old(game)@,
{
    if !game.is_game_over() {
        if let Some(at) = find_place(scene, game.cursor_position()) {
            match game.turn() {
                Player::ONE => {
                    let sprite = new_text_sprite("cursor", "x".to_owned(), at.x, at.y);
                    scene.remove_sprite("p2");
                    scene.insert_sprite("p1", sprite);
                },
                Player::TWO => {
                    let sprite = new_text_sprite("cursor", "o".to_owned(), at.x, at.y);
                    scene.remove_sprite("p1");
                    scene.insert_sprite("p2", sprite);
                },
                Player::NONE => {},
            }
        }
    }
}

/// Shows the mark of every cell that has an owner.
pub fn markers_logic(scene: &mut Scene, game: &mut Game)
    ensures
        final(scene)@ == with_markers(old(scene)@, old(game)@, 9),
        final(game)@ == old(game)@,
{
    let mut x: usize = 0;
    while x < BOARD_SIZE
        invariant
            x <= BOARD_SIZE,
            game@ == old(game)@,
            scene@ == with_markers(old(scene)@, game@, 3 * x),
        decreases BOARD_SIZE - x,
    {
        let mut y: usize = 0;
        while y < BOARD_SIZE
            invariant
                x < BOARD_SIZE,
                y <= BOARD_SIZE,
                game@ == old(game)@,
                scene@ == with_markers(old(scene)@, game@, 3 * x + y),
            decreases BOARD_SIZE - y,
        {
            let ghost n: int = 3 * x + y;
            assert(n / 3 == x && n % 3 == y);
            let cell = game.cell(x, y);
            if cell == Player::ONE || cell == Player::TWO {
                if let Some(at) = find_place(scene, BoardCoordinates::new(x, y)) {
                    let marker = if cell == Player::ONE {
                        "X"
                    } else {
                        "O"
                    };
                    let sprite = new_text_sprite("marker", marker.to_owned(), at.x, at.y);
                    let mut label = decimal(x as u128);
                    label.append("-");
                    label.append(decimal(y as u128).as_str());
                    scene.insert_sprite(label.as_str(), sprite);
                }
            }
            assert(scene@ == with_marker(with_markers(old(scene)@, game@, n), game@, x as int, y as int));
            y += 1;
        }
        x += 1;
    }
}

/// Shows how the game stands: the winner, a draw, or whose turn it is.
pub fn win_lose_logic(scene: &mut Scene, game: &mut Game)
    ensures
        final(scene)@ == with_status(old(scene)@, old(game)@),
        final(game)@ == old(game)@,
{
    let text = if game.winner() != Player::NONE {
        let mut text = "Winner: ".to_owned();
        text.append(game.winner().name());
        text
    } else if game.is_grid_filled() {
        "Draw".to_owned()
    } else {
        let mut text = "Turn: Player ".to_owned();
        text.append(game.turn().name());
        text
    };
    scene.remove_sprite("win-lose");
    let sprite = new_text_sprite("win-lose", text, 0, Y_TURN);
    scene.insert_sprite("win-lose", sprite);
}

/// Shows the tick rate.
pub fn fps_counter<T>(scene: &mut Scene, state: &mut T)
    ensures
        final(scene)@ == with_fps(old(scene)@),
        *final(state) == *old(state),
{
    let delta = scene.delta();
    if delta > 0 {
        let fps: u128 = 1000 / delta;
        let mut text = "FPS: ".to_owned();
        text.append(decimal(fps).as_str());
        scene.remove_sprite("fps");
        let sprite = new_text_sprite("fps", text, 0, Y_FPS);
        scene.insert_sprite("fps", sprite);
    }
}

/// `base_logic` as logic for an engine.
pub struct BaseLogic {}

impl<T> Logic<T> for BaseLogic {
    open spec fn effect(&self, before: (SceneView, T), after: (SceneView, T)) -> bool {
        &&& after.0 == (SceneView { stop: before.0.stop || asks_to_quit(before.0.keys), ..before.0 })
        &&& after.1 == before.1
    }

    fn apply(&self, scene: &mut Scene, state: &mut T) {
        base_logic(scene, state);
    }
}

/// `game_movement` as logic for an engine.
pub struct GameMovement {}

impl Logic<Game> for GameMovement {
    open spec fn effect(&self, before: (SceneView, Game), after: (SceneView, Game)) -> bool {
        &&& after.0 == before.0
        &&& after.1@ == after_keys(before.1@, before.0.keys)
    }

    fn apply(&self, scene: &mut Scene, state: &mut Game) {
        game_movement(scene, state);
    }
}

/// `cursor_logic` as logic for an engine.
pub struct CursorLogic {}

impl Logic<Game> for CursorLogic {
    open spec fn effect(&self, before: (SceneView, Game), after: (SceneView, Game)) -> bool {
        &&& after.0 == with_cursor(before.0, before.1@)
        &&& after.1@ == before.1@
    }

    fn apply(&self, scene: &mut Scene, state: &mut Game) {
        cursor_logic(scene, state);
    }
}

/// `markers_logic` as logic for an engine.
pub struct MarkersLogic {}

impl Logic<Game> for MarkersLogic {
    open spec fn effect(&self, before: (SceneView, Game), after: (SceneView, Game)) -> bool {
        &&& after.0 == with_markers(before.0, before.1@, 9)
        &&& after.1@ == before.1@
    }

    fn apply(&self, scene: &mut Scene, state: &mut Game) {
        markers_logic(scene, state);
    }
}

/// `win_lose_logic` as logic for an engine.
pub struct WinLoseLogic {}

impl Logic<Game> for WinLoseLogic {
    open spec fn effect(&self, before: (SceneView, Game), after: (SceneView, Game)) -> bool {
        &&& after.0 == with_status(before.0, before.1@)
        &&& after.1@ == before.1@
    }

    fn apply(&self, scene: &mut Scene, state: &mut Game) {
        win_lose_logic(scene, state);
    }
}

/// `fps_counter` as logic for an engine.
pub struct FpsCounter {}

impl<T> Logic<T> for FpsCounter {
    open spec fn effect(&self, before: (SceneView, T), after: (SceneView, T)) -> bool {
        &&& after.0 == with_fps(before.0)
        &&& after.1 == before.1
    }

    fn apply(&self, scene: &mut Scene, state: &mut T) {
        fps_counter(scene, state);
    }
}

} // verus!
