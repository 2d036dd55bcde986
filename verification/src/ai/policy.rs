//! The interface to a learned policy: the board as one signal per cell,
//! and a ranking of cells played by its first legal entry.

use vstd::prelude::*;
use crate::game::{Game, GameError, Position};
use crate::game::color::Color;
use crate::game::grid_board::{color_in, grid_cells, grid_cols, grid_rows};
use super::evaluate::width;

verus! {

/// What a cell tells the player to move: 1 for a stone of its own, -1 for
/// one of the other player, 0 for an empty cell.
pub open spec fn signal(cell: Color, mover: Color) -> i8 {
    if cell == Color::Empty {
        0i8
    } else if cell == mover {
        1i8
    } else {
        -1i8
    }
}

/// A cell reads lower with a stone of the other player on it than empty.
pub proof fn opposing_stone_lowers_signal(stone: Color, mover: Color)
    requires
        stone != Color::Empty,
        stone != mover,
    ensures
        signal(stone, mover) == -1,
        signal(Color::Empty, mover) == 0,
{
}

/// The signals of one row, left to right.
pub open spec fn row_signals(row: Seq<Color>, mover: Color) -> Seq<i8> {
    Seq::new(row.len(), |y: int| signal(row[y], mover))
}

/// The signals of the first `n` rows, row after row.
pub open spec fn board_signals(cells: Seq<Seq<Color>>, mover: Color, n: nat) -> Seq<i8>
    decreases n,
{
    if n == 0 {
        Seq::empty()
    } else {
        board_signals(cells, mover, (n - 1) as nat) + row_signals(cells[n - 1], mover)
    }
}

/// The cell that stands at `index` when the cells of a board `cols` wide
/// are counted row after row.
pub open spec fn cell_of(index: usize, cols: nat) -> (usize, usize) {
    if cols == 0 {
        (0, 0)
    } else {
        ((index as nat / cols) as usize, (index as nat % cols) as usize)
    }
}

/// The `k`-th entry of the ranking names a cell that the mover may play.
pub open spec fn playable(s: Position, ranking: Seq<usize>, k: int) -> bool {
    s.legal(cell_of(ranking[k], width(s.cells)))
}

/// The `k`-th entry of the ranking is the first that may be played.
pub open spec fn first_playable(s: Position, ranking: Seq<usize>, k: int) -> bool {
    &&& 0 <= k < ranking.len()
    &&& playable(s, ranking, k)
    &&& forall|j: int| 0 <= j < k ==> !playable(s, ranking, j)
}

/// The board as a policy reads it: one signal per cell for the player to
/// move, the rows one after the other.
pub fn encode(game: &Game) -> (input: Vec<i8>)
    ensures
        input@ == board_signals(game@.cells, game@.turn, game@.cells.len()),
{
    let ghost cells = game@.cells;
    let rows = grid_rows(&game.board);
    let cols = grid_cols(&game.board);
    let mut input: Vec<i8> = Vec::new();
    let mut x: usize = 0;
    while x < rows
        invariant
            cells == grid_cells(game.board),
            rows == cells.len(),
            forall|i: int| 0 <= i < cells.len() ==> (#[trigger] cells[i]).len() == cols,
            x <= rows,
            input@ == board_signals(cells, game.turn, x as nat),
        decreases rows - x,
    {
        let ghost above = input@;
        let mut y: usize = 0;
        while y < cols
            invariant
                cells == grid_cells(game.board),
                x < cells.len(),
                cells[x as int].len() == cols,
                y <= cols,
                input@ == above + row_signals(cells[x as int], game.turn).take(y as int),
            decreases cols - y,
        {
            let ghost row = row_signals(cells[x as int], game.turn);
            let cell = color_in(&game.board, x, y);
            let value: i8 = if cell == Color::Empty {
                0
            } else if cell == game.turn {
                1
            } else {
                -1
            };
            input.push(value);
            assert((above + row.take(y as int)).push(value) =~= above + row.take(y + 1));
            y = y + 1;
        }
        assert(row_signals(cells[x as int], game.turn).take(cols as int) =~= row_signals(
            cells[x as int],
            game.turn,
        ));
        x = x + 1;
    }
    input
}

/// Plays the first cell of the ranking that is a legal move, each entry
/// being a cell's place in the row-after-row count. A finished game refuses
/// with `GameOver`; a ranking without a legal cell leaves the move
/// unplayed and refuses with `IllegalMove`.
pub fn play_ranked(game: &mut Game, ranking: &[usize]) -> (r: Result<Color, GameError>)
    ensures
        old(game)@.turn == Color::Empty ==> r == Err::<Color, GameError>(GameError::GameOver)
            && final(game)@ == old(game)@,
        old(game)@.turn != Color::Empty ==> match r {
            Ok(winner) => exists|k: int|
                {
                    &&& #[trigger] first_playable(old(game)@, ranking@, k)
                    &&& final(game)@ == old(game)@.settle(
                        cell_of(ranking@[k], width(old(game)@.cells)),
                    )
                    &&& winner == old(game)@.winner(cell_of(ranking@[k], width(old(game)@.cells)))
                },
            Err(e) => {
                &&& e == GameError::IllegalMove
                &&& final(game)@ == old(game)@
                &&& forall|k: int| 0 <= k < ranking@.len() ==> !playable(old(game)@, ranking@, k)
            },
        },
{
    if game.turn == Color::Empty {
        return Err(GameError::GameOver);
    }
    let rows = grid_rows(&game.board);
    let cols = if rows == 0 {
        0
    } else {
        grid_cols(&game.board)
    };
    if cols == 0 {
        return Err(GameError::IllegalMove);
    }
    let mut k: usize = 0;
    while k < ranking.len()
        invariant
            game@ == old(game)@,
            game@.turn != Color::Empty,
            cols == width(game@.cells),
            cols > 0,
            k <= ranking.len(),
            forall|j: int| 0 <= j < k ==> !playable(old(game)@, ranking@, j),
        decreases ranking.len() - k,
    {
        let pos = (ranking[k] / cols, ranking[k] % cols);
        assert(pos == cell_of(ranking@[k as int], width(game@.cells)));
        match game.play(pos) {
            Ok(winner) => {
                assert(first_playable(old(game)@, ranking@, k as int));
                return Ok(winner);
            },
            Err(_) => {},
        }
        k = k + 1;
    }
    Err(GameError::IllegalMove)
}

} // verus!
