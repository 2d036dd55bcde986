//! The game state machine: stones, turn order and win detection on a
//! bounded grid.

use vstd::prelude::*;
use grid::Grid;

pub mod color;
pub mod grid_board;
pub mod infinite;
pub mod win;

pub use color::Color;
use grid_board::{
    cell_at, color_in, grid_cells, grid_clone, grid_cols, grid_get, grid_new, grid_rows, grid_set,
    stone_taken_back, with_cell,
};
use win::{wins_at, has_line_through, Axis};

verus! {

/// Height of the board that `Game::new` creates.
pub const MAX_HEIGHT: usize = 5;

/// Width of the board that `Game::new` creates.
pub const MAX_WIDTH: usize = 5;

/// One position of the board as read: its colour and where it lies.
#[derive(Clone, Copy, Debug, PartialEq, Eq, Structural)]
pub struct Cell {
    pub color: Color,
    pub x: usize,
    pub y: usize,
}

impl Default for Cell {
    fn default() -> (r: Cell)
        ensures
            r == (Cell { color: Color::Empty, x: 0, y: 0 }),
    {
        Cell { color: Color::Empty, x: 0, y: 0 }
    }
}

/// Why a move was refused.
#[derive(Clone, Copy, Debug, PartialEq, Eq, Structural)]
pub enum GameError {
    /// The target is not an empty cell of the board.
    IllegalMove,
    /// The game has already been won.
    GameOver,
}

impl GameError {
    /// What the refusal says.
    pub open spec fn spec_message(&self) -> Seq<char> {
        match self {
            GameError::IllegalMove => "Illegal move"@,
            GameError::GameOver => "Game over"@,
        }
    }

    /// The refusal, as text.
    pub fn message(&self) -> (s: String)
        ensures
            s@ == self.spec_message(),
    {
        match self {
            GameError::IllegalMove => "Illegal move".to_owned(),
            GameError::GameOver => "Game over".to_owned(),
        }
    }
}

/// A game in progress. `turn` is the player to move, or `Color::Empty` once
/// the game is won; `last_move` is where the latest stone was placed.
#[derive(Debug)]
pub struct Game {
    pub board: Grid<Color>,
    pub turn: Color,
    pub last_move: Option<(usize, usize)>,
}

/// What a game is to its contracts: the rows of the board, the turn and the
/// last move.
pub ghost struct Position {
    pub cells: Seq<Seq<Color>>,
    pub turn: Color,
    pub last_move: Option<(usize, usize)>,
}

impl Position {
    /// The colour at a coordinate, or nothing off the board.
    pub open spec fn at(self, pos: (usize, usize)) -> Option<Color> {
        cell_at(self.cells, pos.0 as int, pos.1 as int)
    }

    /// The mover may place a stone at `pos`: the game is on and the cell is empty.
    pub open spec fn legal(self, pos: (usize, usize)) -> bool {
        self.turn != Color::Empty && self.at(pos) == Some(Color::Empty)
    }

    /// The board with the mover's stone at `pos`.
    pub open spec fn stone_on(self, pos: (usize, usize)) -> Seq<Seq<Color>> {
        with_cell(self.cells, pos.0 as int, pos.1 as int, self.turn)
    }

    /// The mover's stone at `pos` completes five in a line.
    pub open spec fn wins(self, pos: (usize, usize)) -> bool {
        wins_at(self.stone_on(pos), pos.0 as int, pos.1 as int, self.turn)
    }

    /// The mover's stone goes to `pos` and the turn passes, with no look at
    /// whether the stone wins.
    pub open spec fn place(self, pos: (usize, usize)) -> Position {
        Position { cells: self.stone_on(pos), turn: self.turn.inverse(), last_move: Some(pos) }
    }

    /// The mover's stone goes to `pos`; the game ends if it wins, else the
    /// turn passes.
    pub open spec fn settle(self, pos: (usize, usize)) -> Position {
        Position {
            cells: self.stone_on(pos),
            turn: if self.wins(pos) {
                Color::Empty
            } else {
                self.turn.inverse()
            },
            last_move: Some(pos),
        }
    }

    /// The winner that a stone at `pos` produces, or `Color::Empty` for none yet.
    pub open spec fn winner(self, pos: (usize, usize)) -> Color {
        if self.wins(pos) {
            self.turn
        } else {
            Color::Empty
        }
    }

    /// The colour whose stone lies at `pos`: the player who moved last while
    /// the game is on, and the colour found on the cell once it is over.
    pub open spec fn owner(self, pos: (usize, usize)) -> Color {
        if self.turn != Color::Empty {
            self.turn.inverse()
        } else {
            match self.at(pos) {
                Some(c) => c,
                None => Color::Empty,
            }
        }
    }

    /// The cell at `pos` is emptied and the turn goes back to the player
    /// whose stone it was; the last move stays as it is.
    pub open spec fn lift(self, pos: (usize, usize)) -> Position {
        Position {
            cells: with_cell(self.cells, pos.0 as int, pos.1 as int, Color::Empty),
            turn: self.owner(pos),
            last_move: self.last_move,
        }
    }

    /// Whether the stone at the last move, whatever its colour, completes
    /// five in a line.
    pub open spec fn won(self) -> bool {
        match self.last_move {
            Some(p) => match self.at(p) {
                Some(c) => wins_at(self.cells, p.0 as int, p.1 as int, c),
                None => false,
            },
            None => false,
        }
    }

    /// What one `play` does: the position after it and what it returns.
    pub open spec fn step(self, pos: (usize, usize)) -> (Position, Result<Color, GameError>) {
        if self.turn == Color::Empty {
            (self, Err(GameError::GameOver))
        } else if self.at(pos) != Some(Color::Empty) {
            (self, Err(GameError::IllegalMove))
        } else {
            (self.settle(pos), Ok(self.winner(pos)))
        }
    }

    /// What playing `moves` in order does, stopping at the first win or the
    /// first refusal.
    pub open spec fn run(self, moves: Seq<(usize, usize)>) -> (Position, Result<Color, GameError>)
        decreases moves.len(),
    {
        if moves.len() == 0 {
            (self, Ok(Color::Empty))
        } else {
            let (next, outcome) = self.step(moves[0]);
            if outcome == Ok::<Color, GameError>(Color::Empty) {
                next.run(moves.drop_first())
            } else {
                (next, outcome)
            }
        }
    }
}

/// Taking back a stone that was placed on an empty cell restores the
/// cells and the turn, whoever was to move.
pub proof fn unplay_undoes_placement(s: Position, pos: (usize, usize))
    requires
        s.at(pos) == Some(Color::Empty),
    ensures
        s.place(pos).lift(pos).cells == s.cells,
        s.place(pos).lift(pos).turn == s.turn,
{
    stone_taken_back(s.cells, pos.0 as int, pos.1 as int, s.turn);
}

/// Taking back a legal move restores the cells and the turn, whether or
/// not the move won.
pub proof fn unplay_undoes_play(s: Position, pos: (usize, usize))
    requires
        s.legal(pos),
    ensures
        s.step(pos).0.lift(pos).cells == s.cells,
        s.step(pos).0.lift(pos).turn == s.turn,
{
    stone_taken_back(s.cells, pos.0 as int, pos.1 as int, s.turn);
}

/// While the game is on, a move onto a stone is refused as illegal and
/// changes nothing.
pub proof fn occupied_cell_is_refused(s: Position, pos: (usize, usize))
    requires
        s.turn != Color::Empty,
        s.at(pos) is Some,
        s.at(pos) != Some(Color::Empty),
    ensures
        s.step(pos) == (s, Err::<Color, GameError>(GameError::IllegalMove)),
{
}

/// Once the game is over, whatever is played at it is refused with
/// `GameOver`, and the game stays over.
pub proof fn finished_game_refuses_all(s: Position, moves: Seq<(usize, usize)>)
    requires
        s.turn == Color::Empty,
        moves.len() > 0,
    ensures
        s.run(moves) == (s, Err::<Color, GameError>(GameError::GameOver)),
{
}

/// A move ends the game exactly when it wins.
pub proof fn game_ends_on_a_win(s: Position, pos: (usize, usize))
    requires
        s.legal(pos),
    ensures
        s.step(pos).0.turn == Color::Empty <==> s.wins(pos),
        s.wins(pos) ==> s.step(pos).1 == Ok::<Color, GameError>(s.turn),
{
}

impl View for Game {
    type V = Position;

    open spec fn view(&self) -> Position {
        Position { cells: grid_cells(self.board), turn: self.turn, last_move: self.last_move }
    }
}

impl Clone for Game {
    fn clone(&self) -> (g: Game)
        ensures
            g@ == self@,
    {
        Game { board: grid_clone(&self.board), turn: self.turn, last_move: self.last_move }
    }
}

impl Game {
    /// A fresh game: an empty board of `MAX_HEIGHT` by `MAX_WIDTH`, White to move.
    pub fn new() -> (g: Game)
        ensures
            g@.cells == Seq::new(
                MAX_HEIGHT as nat,
                |i: int| Seq::new(MAX_WIDTH as nat, |j: int| Color::Empty),
            ),
            g@.turn == Color::White,
            g@.last_move is None,
    {
        Game { board: grid_new(MAX_HEIGHT, MAX_WIDTH), turn: Color::White, last_move: None }
    }

    /// Whether five stones of `cell.color` lie in a line through the cell's
    /// coordinate, along a row, a column or either diagonal.
    pub fn check_win_for_cell(&self, cell: Cell) -> (r: bool)
        ensures
            r == wins_at(self@.cells, cell.x as int, cell.y as int, cell.color),
    {
        if cell.color == Color::Empty {
            return false;
        }
        has_line_through(&self.board, Axis::AlongX, cell.x, cell.y, cell.color)
            || has_line_through(&self.board, Axis::AlongY, cell.x, cell.y, cell.color)
            || has_line_through(&self.board, Axis::Diagonal, cell.x, cell.y, cell.color)
            || has_line_through(&self.board, Axis::AntiDiagonal, cell.x, cell.y, cell.color)
    }

    /// Whether the last move made five in a line for the player who made
    /// it, read from the stone that lies there.
    pub fn check_win(&self) -> (r: bool)
        ensures
            r == self@.won(),
    {
        match self.last_move {
            Some(p) => match grid_get(&self.board, p.0, p.1) {
                Some(color) => self.check_win_for_cell(Cell { x: p.0, y: p.1, color }),
                None => false,
            },
            None => false,
        }
    }

    /// Places the mover's stone and passes the turn without testing for a win.
    pub fn play_no_win_check(&mut self, pos: (usize, usize))
        requires
            old(self)@.at(pos) is Some,
        ensures
            final(self)@ == old(self)@.place(pos),
    {
        grid_set(&mut self.board, pos.0, pos.1, self.turn);
        self.last_move = Some(pos);
        self.turn = self.turn.inverse();
    }

    /// Places the mover's stone without testing that the move is legal, and
    /// returns the winner if the stone wins, `Color::Empty` if not.
    pub fn play_unchecked(&mut self, pos: (usize, usize)) -> (winner: Color)
        requires
            old(self)@.at(pos) is Some,
        ensures
            final(self)@ == old(self)@.settle(pos),
            winner == old(self)@.winner(pos),
    {
        grid_set(&mut self.board, pos.0, pos.1, self.turn);
        self.last_move = Some(pos);
        if self.check_win() {
            let winner = self.turn;
            self.turn = Color::Empty;
            winner
        } else {
            self.turn = self.turn.inverse();
            Color::Empty
        }
    }

    /// Plays a move for the player to move. A finished game refuses every
    /// move with `GameOver`; otherwise a target that is not an empty cell of
    /// the board is refused with `IllegalMove`. A refused move changes nothing.
    pub fn play(&mut self, pos: (usize, usize)) -> (r: Result<Color, GameError>)
        ensures
            final(self)@ == old(self)@.step(pos).0,
            r == old(self)@.step(pos).1,
            old(self)@.turn == Color::Empty ==> r == Err::<Color, GameError>(GameError::GameOver)
                && final(self)@ == old(self)@,
            old(self)@.turn != Color::Empty && old(self)@.at(pos) != Some(Color::Empty) ==> r
                == Err::<Color, GameError>(GameError::IllegalMove) && final(self)@ == old(self)@,
            old(self)@.legal(pos) ==> r == Ok::<Color, GameError>(old(self)@.winner(pos))
                && final(self)@ == old(self)@.settle(pos),
    {
        if self.turn == Color::Empty {
            return Err(GameError::GameOver);
        }
        match grid_get(&self.board, pos.0, pos.1) {
            Some(Color::Empty) => Ok(self.play_unchecked(pos)),
            _ => Err(GameError::IllegalMove),
        }
    }

    /// Plays the moves in order, stopping at the first that wins or is refused.
    pub fn play_moves(&mut self, moves: &[(usize, usize)]) -> (r: Result<Color, GameError>)
        ensures
            final(self)@ == old(self)@.run(moves@).0,
            r == old(self)@.run(moves@).1,
    {
        let mut i: usize = 0;
        assert(moves@.skip(0) == moves@);
        while i < moves.len()
            invariant
                i <= moves.len(),
                old(self)@.run(moves@) == self@.run(moves@.skip(i as int)),
            decreases moves.len() - i,
        {
            assert(moves@.skip(i as int).drop_first() == moves@.skip(i + 1));
            match self.play(moves[i]) {
                Ok(Color::Empty) => {},
                Ok(winner) => {
                    return Ok(winner);
                },
                Err(e) => {
                    return Err(e);
                },
            }
            i = i + 1;
        }
        Ok(Color::Empty)
    }

    /// The board as symbols, row by row: one symbol for each cell.
    pub fn render(&self) -> (rows: Vec<Vec<char>>)
        ensures
            rows@.len() == self@.cells.len(),
            forall|x: int|
                0 <= x < rows@.len() ==> (#[trigger] rows@[x])@ == Seq::new(
                    self@.cells[x].len(),
                    |y: int| self@.cells[x][y].get_char(),
                ),
    {
        let ghost cells = self@.cells;
        let height = grid_rows(&self.board);
        let width = grid_cols(&self.board);
        let mut rows: Vec<Vec<char>> = Vec::new();
        let mut x: usize = 0;
        while x < height
            invariant
                cells == grid_cells(self.board),
                height == cells.len(),
                forall|i: int| 0 <= i < cells.len() ==> (#[trigger] cells[i]).len() == width,
                x <= height,
                rows@.len() == x,
                forall|i: int|
                    0 <= i < x ==> (#[trigger] rows@[i])@ == Seq::new(
                        cells[i].len(),
                        |y: int| cells[i][y].get_char(),
                    ),
            decreases height - x,
        {
            let mut row: Vec<char> = Vec::new();
            let mut y: usize = 0;
            while y < width
                invariant
                    cells == grid_cells(self.board),
                    x < cells.len(),
                    cells[x as int].len() == width,
                    y <= width,
                    row@.len() == y,
                    forall|j: int| 0 <= j < y ==> #[trigger] row@[j] == cells[x as int][j].get_char(),
                decreases width - y,
            {
                row.push(color_in(&self.board, x, y).get_char());
                y = y + 1;
            }
            assert(row@ =~= Seq::new(cells[x as int].len(), |y: int| cells[x as int][y].get_char()));
            rows.push(row);
            x = x + 1;
        }
        rows
    }

    /// Takes the stone at `pos` back: the cell is emptied and the turn goes
    /// to the player whose stone it was, which reopens a game that the stone
    /// had won. The last move is not restored.
    pub fn unplay(&mut self, pos: (usize, usize))
        requires
            old(self)@.at(pos) is Some,
        ensures
            final(self)@ == old(self)@.lift(pos),
    {
        if self.turn == Color::Empty {
            self.turn = color_in(&self.board, pos.0, pos.1);
        } else {
            self.turn = self.turn.inverse();
        }
        grid_set(&mut self.board, pos.0, pos.1, Color::Empty);
    }
}

} // verus!
