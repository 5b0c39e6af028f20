//! The state of a game and its rules: whose turn it is, where the cursor may go,
//! who has won.

use vstd::prelude::*;
use crate::tictactoe::coordinates::BoardCoordinates;
use crate::tictactoe::movement::MoveDirection;
use crate::tictactoe::player::Player;

verus! {

/// The number of cells along each side of the board.
pub const BOARD_SIZE: usize = 3;

/// A game in progress or over. The board is kept column by column: `state[x][y]`.
pub struct Game {
    turn: Player,
    winner: Player,
    state: Vec<Vec<Player>>,
    cursor_position: BoardCoordinates,
}

/// A game as a value.
pub struct GameView {
    /// The player to move.
    pub turn: Player,
    /// The winner, as of the last move.
    pub winner: Player,
    /// The owners of the cells, `state[x][y]`.
    pub state: Seq<Seq<Player>>,
    /// The cell under the cursor.
    pub cursor: BoardCoordinates,
}

/// `state` is a board: three columns of three cells.
pub open spec fn is_board(state: Seq<Seq<Player>>) -> bool {
    &&& state.len() == BOARD_SIZE
    &&& forall|x: int| 0 <= x < BOARD_SIZE ==> (#[trigger] state[x]).len() == BOARD_SIZE
}

/// No cell is empty.
pub open spec fn filled(state: Seq<Seq<Player>>) -> bool {
    forall|x: int, y: int| 0 <= x < BOARD_SIZE && 0 <= y < BOARD_SIZE ==> (#[trigger] state[x][y]) != Player::NONE
}

/// The player who owns all three of the cells, if one does.
pub open spec fn owner(a: Player, b: Player, c: Player) -> Player {
    if a == b && b == c {
        a
    } else {
        Player::NONE
    }
}

/// The first of `owners` that is a player.
pub open spec fn first_player(owners: Seq<Player>) -> Player
    decreases owners.len(),
{
    if owners.len() == 0 {
        Player::NONE
    } else if owners[0] != Player::NONE {
        owners[0]
    } else {
        first_player(owners.drop_first())
    }
}

/// The eight lines of the board with their owners: the columns `state[0]` to
/// `state[2]`, then the rows, then the two diagonals.
pub open spec fn lines(state: Seq<Seq<Player>>) -> Seq<Player> {
    seq![
        owner(state[0][0], state[0][1], state[0][2]),
        owner(state[1][0], state[1][1], state[1][2]),
        owner(state[2][0], state[2][1], state[2][2]),
        owner(state[0][0], state[1][0], state[2][0]),
        owner(state[0][1], state[1][1], state[2][1]),
        owner(state[0][2], state[1][2], state[2][2]),
        owner(state[0][0], state[1][1], state[2][2]),
        owner(state[0][2], state[1][1], state[2][0]),
    ]
}

/// The winner: the owner of a line. Should both players own lines, the line that
/// comes first in `lines` decides.
pub open spec fn winner_of(state: Seq<Seq<Player>>) -> Player {
    first_player(lines(state))
}

/// The first empty cell, going through the columns from `state[0]` on and down each.
pub open spec fn first_empty(state: Seq<Seq<Player>>, x: int, y: int) -> Option<BoardCoordinates>
    decreases BOARD_SIZE - x, BOARD_SIZE - y,
{
    if x < 0 || y < 0 || x >= BOARD_SIZE {
        None
    } else if y >= BOARD_SIZE {
        first_empty(state, x + 1, 0)
    } else if state[x][y] == Player::NONE {
        Some(BoardCoordinates { x: x as usize, y: y as usize })
    } else {
        first_empty(state, x, y + 1)
    }
}

/// The last empty place of `line` before `bound`.
pub open spec fn empty_before(line: Seq<Player>, bound: int) -> Option<int>
    decreases bound,
{
    if bound <= 0 {
        None
    } else if bound - 1 < line.len() && line[bound - 1] == Player::NONE {
        Some(bound - 1)
    } else {
        empty_before(line, bound - 1)
    }
}

/// The first empty place of `line` at or behind `from`.
pub open spec fn empty_from(line: Seq<Player>, from: int) -> Option<int>
    decreases line.len() - from,
{
    if from < 0 || from >= line.len() {
        None
    } else if line[from] == Player::NONE {
        Some(from)
    } else {
        empty_from(line, from + 1)
    }
}

/// Row `y` of the board, from left to right.
pub open spec fn row(state: Seq<Seq<Player>>, y: int) -> Seq<Player> {
    Seq::new(state.len(), |x: int| state[x][y])
}

/// The nearest empty cell from `pos` in `direction`, in the same column for `UP` and
/// `DOWN`, in the same row for `LEFT` and `RIGHT`.
pub open spec fn next_available(state: Seq<Seq<Player>>, pos: BoardCoordinates, direction: MoveDirection) -> Option<
    BoardCoordinates,
> {
    match direction {
        MoveDirection::UP => match empty_before(state[pos.x as int], pos.y as int) {
            Some(y) => Some(BoardCoordinates { x: pos.x, y: y as usize }),
            None => None,
        },
        MoveDirection::DOWN => match empty_from(state[pos.x as int], pos.y + 1) {
            Some(y) => Some(BoardCoordinates { x: pos.x, y: y as usize }),
            None => None,
        },
        MoveDirection::RIGHT => match empty_from(row(state, pos.y as int), pos.x + 1) {
            Some(x) => Some(BoardCoordinates { x: x as usize, y: pos.y }),
            None => None,
        },
        MoveDirection::LEFT => match empty_before(row(state, pos.y as int), pos.x as int) {
            Some(x) => Some(BoardCoordinates { x: x as usize, y: pos.y }),
            None => None,
        },
    }
}

/// The cell from which the `n`-th detour of a move starts: the cursor's cell, shifted
/// to column `n` for `UP` and `DOWN`, to row `n` for `LEFT` and `RIGHT`.
pub open spec fn detour_start(cursor: BoardCoordinates, direction: MoveDirection, n: int) -> BoardCoordinates {
    match direction {
        MoveDirection::UP | MoveDirection::DOWN => BoardCoordinates { x: n as usize, y: cursor.y },
        MoveDirection::LEFT | MoveDirection::RIGHT => BoardCoordinates { x: cursor.x, y: n as usize },
    }
}

/// The cell that the first detour from `n` on leads to.
pub open spec fn detour(state: Seq<Seq<Player>>, cursor: BoardCoordinates, direction: MoveDirection, n: int) -> Option<
    BoardCoordinates,
>
    decreases BOARD_SIZE - n,
{
    if n < 0 || n >= BOARD_SIZE {
        None
    } else {
        match next_available(state, detour_start(cursor, direction, n), direction) {
            Some(cell) => Some(cell),
            None => detour(state, cursor, direction, n + 1),
        }
    }
}

/// Where the cursor stands after a move in `direction`: on the nearest empty cell that
/// way; if there is none, on the cell that the first detour leads to; else where it was.
pub open spec fn moved(state: Seq<Seq<Player>>, cursor: BoardCoordinates, direction: MoveDirection) -> BoardCoordinates {
    match next_available(state, cursor, direction) {
        Some(cell) => cell,
        None => match detour(state, cursor, direction, 0) {
            Some(cell) => cell,
            None => cursor,
        },
    }
}

impl GameView {
    /// The board is three by three and the cursor is on it.
    pub open spec fn wf(self) -> bool {
        &&& is_board(self.state)
        &&& self.cursor.x < BOARD_SIZE
        &&& self.cursor.y < BOARD_SIZE
    }

    /// Somebody has won or no cell is left.
    pub open spec fn game_over(self) -> bool {
        self.winner != Player::NONE || filled(self.state)
    }

    /// The game after the player to move has taken the cell under the cursor: the other
    /// player is to move, the cursor goes to the first empty cell, if one is left, and
    /// the winner is worked out anew. A game that is over stays as it is.
    pub open spec fn played(self) -> GameView {
        if self.game_over() {
            self
        } else {
            let state = self.state.update(
                self.cursor.x as int,
                self.state[self.cursor.x as int].update(self.cursor.y as int, self.turn),
            );
            GameView {
                turn: self.turn.next(),
                winner: winner_of(state),
                state,
                cursor: match first_empty(state, 0, 0) {
                    Some(cell) => cell,
                    None => self.cursor,
                },
            }
        }
    }
}

impl View for Game {
    type V = GameView;

    closed spec fn view(&self) -> GameView {
        GameView {
            turn: self.turn,
            winner: self.winner,
            state: Seq::new(self.state@.len(), |x: int| self.state@[x]@),
            cursor: self.cursor_position,
        }
    }
}

impl Default for Game {
    /// A new game: an empty board, player one to move, the cursor in the first cell.
    fn default() -> (game: Self)
        ensures
            game@.wf(),
            game@.turn == Player::ONE,
            game@.winner == Player::NONE,
            game@.cursor == (BoardCoordinates { x: 0, y: 0 }),
            forall|x: int, y: int| 0 <= x < BOARD_SIZE && 0 <= y < BOARD_SIZE ==> game@.state[x][y] == Player::NONE,
    {
        let mut state: Vec<Vec<Player>> = Vec::with_capacity(3);
        let mut x: usize = 0;
        while x < BOARD_SIZE
            invariant
                x <= BOARD_SIZE,
                state@.len() == x,
                forall|i: int| 0 <= i < x ==> (#[trigger] state@[i])@ == seq![Player::NONE, Player::NONE, Player::NONE],
            decreases BOARD_SIZE - x,
        {
            let mut col: Vec<Player> = Vec::with_capacity(3);
            col.push(Player::NONE);
            col.push(Player::NONE);
            col.push(Player::NONE);
            assert(col@ =~= seq![Player::NONE, Player::NONE, Player::NONE]);
            state.push(col);
            x += 1;
        }
        Self { turn: Player::ONE, winner: Player::NONE, state, cursor_position: BoardCoordinates::new(0, 0) }
    }
}

impl Game {
    #[verifier::type_invariant]
    spec fn inv(self) -> bool {
        self@.wf()
    }

    /// The player to move.
    pub fn turn(&self) -> (turn: Player)
        ensures
            turn == self@.turn,
    {
        self.turn
    }

    /// The winner, as of the last move.
    pub fn winner(&self) -> (winner: Player)
        ensures
            winner == self@.winner,
    {
        self.winner
    }

    /// The cell under the cursor.
    pub fn cursor_position(&self) -> (cell: BoardCoordinates)
        ensures
            cell == self@.cursor,
            self@.wf(),
    {
        proof {
            use_type_invariant(self);
        }
        self.cursor_position
    }

    /// The owner of the cell in column `x` and row `y`; nobody for a cell off the board.
    pub fn cell(&self, x: usize, y: usize) -> (owner: Player)
        ensures
            self@.wf(),
            owner == if x < BOARD_SIZE && y < BOARD_SIZE {
                self@.state[x as int][y as int]
            } else {
                Player::NONE
            },
    {
        proof {
            use_type_invariant(self);
        }
        if x < BOARD_SIZE && y < BOARD_SIZE {
            assert(self@.state[x as int] == self.state@[x as int]@);
            self.state[x][y]
        } else {
            Player::NONE
        }
    }

    /// Moves the cursor to the nearest empty cell in `direction`. If there is none in
    /// the cursor's own column (for `UP` and `DOWN`) or row (for `LEFT` and `RIGHT`),
    /// the other columns, or rows, are tried from the first on, each from the cursor's
    /// height or width. If none of them has one either, the cursor stays.
    pub fn move_cursor(&mut self, direction: MoveDirection)
        ensures
            final(self)@ == (GameView { cursor: moved(old(self)@.state, old(self)@.cursor, direction), ..old(self)@ }),
    {
        proof {
            use_type_invariant(&*self);
        }
        let from = self.cursor_position;
        if let Some(new_pos) = self.find_next_available_cell(&from, &direction) {
            self.cursor_position = new_pos;
            return;
        }
        let mut n: usize = 0;
        while n < BOARD_SIZE
            invariant
                n <= BOARD_SIZE,
                self@ == old(self)@,
                self@.wf(),
                from == self@.cursor,
                next_available(self@.state, from, direction) is None,
                detour(self@.state, from, direction, 0) == detour(self@.state, from, direction, n as int),
            decreases BOARD_SIZE - n,
        {
            let start = match direction {
                MoveDirection::UP | MoveDirection::DOWN => BoardCoordinates::new(n, from.y),
                MoveDirection::LEFT | MoveDirection::RIGHT => BoardCoordinates::new(from.x, n),
            };
            assert(start == detour_start(from, direction, n as int));
            if let Some(new_pos) = self.find_next_available_cell(&start, &direction) {
                self.cursor_position = new_pos;
                return;
            }
            n += 1;
        }
    }

    /// The player to move takes the cell under the cursor, unless the game is over.
    pub fn play(&mut self)
        ensures
            final(self)@ == old(self)@.played(),
    {
        proof {
            use_type_invariant(&*self);
        }
        if !self.is_game_over() {
            let ghost before = self@;
            let x: usize = self.cursor_position.x;
            let y: usize = self.cursor_position.y;
            let mover = self.turn;
            proof {
                assert(before.state[x as int] == self.state@[x as int]@);
            }
            let mut state: Vec<Vec<Player>> = Vec::with_capacity(BOARD_SIZE);
            let mut i: usize = 0;
            while i < BOARD_SIZE
                invariant
                    i <= BOARD_SIZE,
                    x < BOARD_SIZE,
                    y < BOARD_SIZE,
                    self@ == before,
                    before.wf(),
                    state@.len() == i,
                    forall|c: int| 0 <= c < i ==> (#[trigger] state@[c])@ == (if c == x {
                        before.state[c].update(y as int, mover)
                    } else {
                        before.state[c]
                    }),
                decreases BOARD_SIZE - i,
            {
                let mut column = self.get_row(i);
                if i == x {
                    column[y] = mover;
                }
                state.push(column);
                i += 1;
            }
            proof {
                let cells = Seq::new(state@.len(), |i: int| state@[i]@);
                assert(cells =~= before.state.update(x as int, before.state[x as int].update(y as int, mover)));
            }
            self.state = state;
            self.turn = match mover {
                Player::ONE => Player::TWO,
                Player::TWO => Player::ONE,
                _ => Player::ONE,
            };
            if let Some(empty_cell) = self.find_empty_cell() {
                self.cursor_position = empty_cell;
            }
            self.winner = self.compute_winner();
        }
    }

    /// The nearest empty cell from `pos` in `direction`.
    fn find_next_available_cell(&self, pos: &BoardCoordinates, direction: &MoveDirection) -> (cell: Option<
        BoardCoordinates,
    >)
        requires
            match direction {
                MoveDirection::UP | MoveDirection::DOWN => pos.x < BOARD_SIZE,
                MoveDirection::LEFT | MoveDirection::RIGHT => pos.y < BOARD_SIZE,
            },
        ensures
            self@.wf(),
            cell == next_available(self@.state, *pos, *direction),
            cell matches Some(c) ==> c.x < BOARD_SIZE && c.y < BOARD_SIZE,
    {
        proof {
            use_type_invariant(self);
        }
        match direction {
            MoveDirection::UP => {
                let row = self.get_row(pos.x);
                match last_empty_before(&row, pos.y) {
                    Some(y) => Some(BoardCoordinates::new(pos.x, y)),
                    None => None,
                }
            },
            MoveDirection::DOWN => {
                let row = self.get_row(pos.x);
                match first_empty_behind(&row, pos.y) {
                    Some(y) => Some(BoardCoordinates::new(pos.x, y)),
                    None => None,
                }
            },
            MoveDirection::RIGHT => {
                let col = self.get_col(pos.y);
                match first_empty_behind(&col, pos.x) {
                    Some(x) => Some(BoardCoordinates::new(x, pos.y)),
                    None => None,
                }
            },
            MoveDirection::LEFT => {
                let col = self.get_col(pos.y);
                match last_empty_before(&col, pos.x) {
                    Some(x) => Some(BoardCoordinates::new(x, pos.y)),
                    None => None,
                }
            },
        }
    }

    /// Whether no cell is empty.
    pub fn is_grid_filled(&self) -> (full: bool)
        ensures
            full == filled(self@.state),
    {
        proof {
            use_type_invariant(self);
        }
        let mut x: usize = 0;
        while x < BOARD_SIZE
            invariant
                x <= BOARD_SIZE,
                self@.wf(),
                forall|i: int, j: int| 0 <= i < x && 0 <= j < BOARD_SIZE ==> (#[trigger] self@.state[i][j]) != Player::NONE,
            decreases BOARD_SIZE - x,
        {
            let mut y: usize = 0;
            while y < BOARD_SIZE
                invariant
                    x < BOARD_SIZE,
                    y <= BOARD_SIZE,
                    self@.wf(),
                    forall|i: int, j: int|
                        0 <= i < x && 0 <= j < BOARD_SIZE ==> (#[trigger] self@.state[i][j]) != Player::NONE,
                    forall|j: int| 0 <= j < y ==> (#[trigger] self@.state[x as int][j]) != Player::NONE,
                decreases BOARD_SIZE - y,
            {
                assert(self@.state[x as int] == self.state@[x as int]@);
                if self.state[x][y] == Player::NONE {
                    return false;
                }
                y += 1;
            }
            x += 1;
        }
        true
    }

    /// Whether the game is over: somebody has won, or no cell is left.
    pub fn is_game_over(&self) -> (over: bool)
        ensures
            over == self@.game_over(),
    {
        self.winner != Player::NONE || self.is_grid_filled()
    }

    /// The first empty cell of the board, going through the columns and down each.
    fn find_empty_cell(&self) -> (cell: Option<BoardCoordinates>)
        ensures
            cell == first_empty(self@.state, 0, 0),
            cell matches Some(c) ==> c.x < BOARD_SIZE && c.y < BOARD_SIZE,
    {
        proof {
            use_type_invariant(self);
        }
        let ghost cells = self@.state;
        let mut x: usize = 0;
        while x < BOARD_SIZE
            invariant
                x <= BOARD_SIZE,
                is_board(cells),
                cells == self@.state,
                first_empty(cells, 0, 0) == first_empty(cells, x as int, 0),
            decreases BOARD_SIZE - x,
        {
            let mut y: usize = 0;
            while y < BOARD_SIZE
                invariant
                    x < BOARD_SIZE,
                    y <= BOARD_SIZE,
                    is_board(cells),
                    cells == self@.state,
                    first_empty(cells, 0, 0) == first_empty(cells, x as int, y as int),
                decreases BOARD_SIZE - y,
            {
                assert(cells[x as int] == self.state@[x as int]@);
                if self.state[x][y] == Player::NONE {
                    return Some(BoardCoordinates { x, y });
                }
                y += 1;
            }
            x += 1;
        }
        None
    }

    /// The winner on the board `state`.
    fn compute_winner(&self) -> (winner: Player)
        ensures
            winner == winner_of(self@.state),
    {
        proof {
            use_type_invariant(self);
        }
        let ghost cells = self@.state;
        proof {
            assert(cells[0] == self.state@[0]@);
            assert(cells[1] == self.state@[1]@);
            assert(cells[2] == self.state@[2]@);
            reveal_with_fuel(first_player, 9);
            assert(lines(cells).drop_first() =~= seq![
                owner(cells[1][0], cells[1][1], cells[1][2]),
                owner(cells[2][0], cells[2][1], cells[2][2]),
                owner(cells[0][0], cells[1][0], cells[2][0]),
                owner(cells[0][1], cells[1][1], cells[2][1]),
                owner(cells[0][2], cells[1][2], cells[2][2]),
                owner(cells[0][0], cells[1][1], cells[2][2]),
                owner(cells[0][2], cells[1][1], cells[2][0]),
            ]);
        }
        let mut x: usize = 0;
        while x < BOARD_SIZE
            invariant
                x <= BOARD_SIZE,
                is_board(cells),
                cells == self@.state,
                forall|i: int| 0 <= i < x ==> owner(cells[i][0], cells[i][1], cells[i][2]) == Player::NONE,
            decreases BOARD_SIZE - x,
        {
            assert(cells[x as int] == self.state@[x as int]@);
            if all_owned(self.state[x][0], self.state[x][1], self.state[x][2], Player::ONE) {
                proof {
                    lemma_first_line(cells, x as int);
                }
                return Player::ONE;
            }
            if all_owned(self.state[x][0], self.state[x][1], self.state[x][2], Player::TWO) {
                proof {
                    lemma_first_line(cells, x as int);
                }
                return Player::TWO;
            }
            x += 1;
        }
        let mut y: usize = 0;
        while y < BOARD_SIZE
            invariant
                y <= BOARD_SIZE,
                is_board(cells),
                cells == self@.state,
                forall|i: int| 0 <= i < BOARD_SIZE ==> owner(cells[i][0], cells[i][1], cells[i][2]) == Player::NONE,
                forall|j: int| 0 <= j < y ==> owner(cells[0][j], cells[1][j], cells[2][j]) == Player::NONE,
            decreases BOARD_SIZE - y,
        {
            assert(cells[0] == self.state@[0]@);
            assert(cells[1] == self.state@[1]@);
            assert(cells[2] == self.state@[2]@);
            if all_owned(self.state[0][y], self.state[1][y], self.state[2][y], Player::ONE) {
                proof {
                    lemma_first_line(cells, 3 + y);
                }
                return Player::ONE;
            }
            if all_owned(self.state[0][y], self.state[1][y], self.state[2][y], Player::TWO) {
                proof {
                    lemma_first_line(cells, 3 + y);
                }
                return Player::TWO;
            }
            y += 1;
        }
        assert(cells[0] == self.state@[0]@);
        assert(cells[1] == self.state@[1]@);
        assert(cells[2] == self.state@[2]@);
        proof {
            lemma_first_line(cells, 6);
            lemma_first_line(cells, 7);
            lemma_no_line(cells);
        }
        if all_owned(self.state[0][0], self.state[1][1], self.state[2][2], Player::ONE) {
            return Player::ONE;
        }
        if all_owned(self.state[0][0], self.state[1][1], self.state[2][2], Player::TWO) {
            return Player::TWO;
        }
        if all_owned(self.state[0][2], self.state[1][1], self.state[2][0], Player::ONE) {
            return Player::ONE;
        }
        if all_owned(self.state[0][2], self.state[1][1], self.state[2][0], Player::TWO) {
            return Player::TWO;
        }
        Player::NONE
    }

    /// One row of the board: the cells `state[0][y]`, `state[1][y]`, `state[2][y]`.
    fn get_col(&self, y: usize) -> (cells: Vec<Player>)
        requires
            y < BOARD_SIZE,
        ensures
            self@.wf(),
            cells@ == row(self@.state, y as int),
    {
        proof {
            use_type_invariant(self);
        }
        let mut cells: Vec<Player> = Vec::with_capacity(BOARD_SIZE);
        let mut x: usize = 0;
        while x < BOARD_SIZE
            invariant
                x <= BOARD_SIZE,
                y < BOARD_SIZE,
                self@.wf(),
                cells@.len() == x,
                forall|i: int| 0 <= i < x ==> cells@[i] == self@.state[i][y as int],
            decreases BOARD_SIZE - x,
        {
            assert(self@.state[x as int] == self.state@[x as int]@);
            cells.push(self.state[x][y]);
            x += 1;
        }
        assert(cells@ =~= row(self@.state, y as int));
        cells
    }

    /// One column of the board: the cells `state[x][0]`, `state[x][1]`, `state[x][2]`.
    fn get_row(&self, x: usize) -> (cells: Vec<Player>)
        requires
            x < BOARD_SIZE,
        ensures
            self@.wf(),
            cells@ == self@.state[x as int],
    {
        proof {
            use_type_invariant(self);
        }
        let mut cells: Vec<Player> = Vec::with_capacity(BOARD_SIZE);
        let mut y: usize = 0;
        while y < BOARD_SIZE
            invariant
                x < BOARD_SIZE,
                y <= BOARD_SIZE,
                self@.wf(),
                cells@.len() == y,
                forall|j: int| 0 <= j < y ==> cells@[j] == self@.state[x as int][j],
            decreases BOARD_SIZE - y,
        {
            assert(self@.state[x as int] == self.state@[x as int]@);
            cells.push(self.state[x][y]);
            y += 1;
        }
        assert(cells@ =~= self@.state[x as int]);
        cells
    }
}

/// The last empty place of `line` before `bound`.
fn last_empty_before(line: &Vec<Player>, bound: usize) -> (place: Option<usize>)
    ensures
        match place {
            Some(i) => empty_before(line@, bound as int) == Some(i as int) && i < line@.len(),
            None => empty_before(line@, bound as int) is None,
        },
{
    let mut n: usize = bound;
    while n > 0
        invariant
            n <= bound,
            empty_before(line@, bound as int) == empty_before(line@, n as int),
        decreases n,
    {
        if n - 1 < line.len() && line[n - 1] == Player::NONE {
            return Some(n - 1);
        }
        n -= 1;
    }
    None
}

/// The first empty place of `line` behind `place`.
fn first_empty_behind(line: &Vec<Player>, place: usize) -> (found: Option<usize>)
    ensures
        match found {
            Some(i) => empty_from(line@, place + 1) == Some(i as int) && i < line@.len(),
            None => empty_from(line@, place + 1) is None,
        },
{
    if place >= line.len() {
        return None;
    }
    let mut i: usize = place + 1;
    while i < line.len()
        invariant
            place < i <= line@.len(),
            empty_from(line@, place + 1) == empty_from(line@, i as int),
        decreases line.len() - i,
    {
        if line[i] == Player::NONE {
            return Some(i);
        }
        i += 1;
    }
    None
}

/// Whether the three cells are all owned by `player`.
fn all_owned(a: Player, b: Player, c: Player, player: Player) -> (all: bool)
    ensures
        all == (a == player && b == player && c == player),
{
    a == player && b == player && c == player
}

/// The first of `owners` that is a player is the one at `n`, if all before it are nobody.
pub proof fn lemma_first_player(owners: Seq<Player>, n: int)
    requires
        0 <= n < owners.len(),
        forall|i: int| 0 <= i < n ==> owners[i] == Player::NONE,
        owners[n] != Player::NONE,
    ensures
        first_player(owners) == owners[n],
    decreases n,
{
    if n > 0 {
        let rest = owners.drop_first();
        assert forall|i: int| 0 <= i < n - 1 implies rest[i] == Player::NONE by {
            assert(rest[i] == owners[i + 1]);
        }
        assert(rest[n - 1] == owners[n]);
        lemma_first_player(rest, n - 1);
    }
}

/// Nobody wins where no line has an owner.
pub proof fn lemma_no_player(owners: Seq<Player>)
    requires
        forall|i: int| 0 <= i < owners.len() ==> owners[i] == Player::NONE,
    ensures
        first_player(owners) == Player::NONE,
    decreases owners.len(),
{
    if owners.len() > 0 {
        let rest = owners.drop_first();
        assert forall|i: int| 0 <= i < rest.len() implies rest[i] == Player::NONE by {
            assert(rest[i] == owners[i + 1]);
        }
        lemma_no_player(rest);
    }
}

/// The winner is the owner of line `n`, if that line has one and no line before it has.
proof fn lemma_first_line(cells: Seq<Seq<Player>>, n: int)
    requires
        0 <= n < 8,
    ensures
        (forall|i: int| 0 <= i < n ==> lines(cells)[i] == Player::NONE) && lines(cells)[n] != Player::NONE
            ==> winner_of(cells) == lines(cells)[n],
{
    if (forall|i: int| 0 <= i < n ==> lines(cells)[i] == Player::NONE) && lines(cells)[n] != Player::NONE {
        lemma_first_player(lines(cells), n);
    }
}

/// Nobody has won a board without an owned line.
proof fn lemma_no_line(cells: Seq<Seq<Player>>)
    ensures
        (forall|i: int| 0 <= i < 8 ==> lines(cells)[i] == Player::NONE) ==> winner_of(cells) == Player::NONE,
{
    if forall|i: int| 0 <= i < 8 ==> lines(cells)[i] == Player::NONE {
        lemma_no_player(lines(cells));
    }
}

} // verus!
