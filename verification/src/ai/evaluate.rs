//! Positional evaluation: every maximal run of stones along a row or a
//! column counts the square of its length, for or against a player.

use vstd::prelude::*;
use grid::Grid;
use crate::game::Game;
use crate::game::color::Color;
use crate::game::grid_board::{color_in, grid_cells, grid_cols, grid_rows};

verus! {

/// How a run of `run` counts for `me`: for, against, or not at all.
pub open spec fn sign(run: Color, me: Color) -> int {
    if run == Color::Empty {
        0
    } else if run == me {
        1
    } else {
        -1
    }
}

/// The length of the maximal run of equal cells that ends the line.
pub open spec fn last_run(line: Seq<Color>) -> nat
    decreases line.len(),
{
    if line.len() == 0 {
        0
    } else if line.len() >= 2 && line[line.len() - 2] == line.last() {
        1 + last_run(line.drop_last())
    } else {
        1
    }
}

/// The score of a line for `me`: over its maximal runs of equal cells, the
/// sum of the squared length of each, signed by whose run it is.
pub open spec fn line_score(line: Seq<Color>, me: Color) -> int
    decreases line.len(),
{
    if line.len() == 0 {
        0
    } else {
        let n = last_run(line);
        if 1 <= n <= line.len() {
            line_score(line.take(line.len() - n), me) + sign(line.last(), me) * (n * n)
        } else {
            0
        }
    }
}

/// The number of columns: the length of the first row.
pub open spec fn width(cells: Seq<Seq<Color>>) -> nat {
    if cells.len() == 0 {
        0
    } else {
        cells[0].len()
    }
}

/// Column `y`, top to bottom.
pub open spec fn column(cells: Seq<Seq<Color>>, y: int) -> Seq<Color> {
    Seq::new(cells.len(), |x: int| cells[x][y])
}

/// The summed line scores of the first `n` rows.
pub open spec fn rows_score(cells: Seq<Seq<Color>>, me: Color, n: nat) -> int
    decreases n,
{
    if n == 0 {
        0
    } else {
        rows_score(cells, me, (n - 1) as nat) + line_score(cells[n - 1], me)
    }
}

/// The summed line scores of the first `n` columns.
pub open spec fn columns_score(cells: Seq<Seq<Color>>, me: Color, n: nat) -> int
    decreases n,
{
    if n == 0 {
        0
    } else {
        columns_score(cells, me, (n - 1) as nat) + line_score(column(cells, n - 1), me)
    }
}

/// The score of a board for `me`: the line scores of all its rows and all
/// its columns.
pub open spec fn board_score(cells: Seq<Seq<Color>>, me: Color) -> int {
    rows_score(cells, me, cells.len()) + columns_score(cells, me, width(cells))
}

/// The largest score, for or against, that a board of `rows` by `cols` can
/// have: each row a single run, and each column too.
pub open spec fn score_limit(rows: nat, cols: nat) -> nat {
    rows * (cols * cols) + cols * (rows * rows)
}

/// The board can be evaluated: every row has the same length, the counts
/// of rows and columns are machine sizes, and the largest score that a
/// board of this size can have fits in an `i64`.
pub open spec fn measurable(cells: Seq<Seq<Color>>) -> bool {
    &&& forall|x: int| 0 <= x < cells.len() ==> (#[trigger] cells[x]).len() == width(cells)
    &&& cells.len() <= usize::MAX
    &&& width(cells) <= usize::MAX
    &&& score_limit(cells.len(), width(cells)) <= i64::MAX
}

/// The last run of a line that is not empty has at least one cell and at
/// most all of them.
pub proof fn last_run_bounds(line: Seq<Color>)
    requires
        line.len() > 0,
    ensures
        1 <= last_run(line) <= line.len(),
    decreases line.len(),
{
    if line.len() >= 2 && line[line.len() - 2] == line.last() {
        last_run_bounds(line.drop_last());
    }
}

/// A line's score lies within the square of its length.
pub proof fn line_score_bounds(line: Seq<Color>, me: Color)
    ensures
        -(line.len() * line.len()) <= line_score(line, me) <= line.len() * line.len(),
    decreases line.len(),
{
    if line.len() > 0 {
        last_run_bounds(line);
        let n = last_run(line) as int;
        let len = line.len() as int;
        let rest = line.take(len - n);
        line_score_bounds(rest, me);
        assert(rest.len() == len - n);
        assert((len - n) * (len - n) + n * n <= len * len) by (nonlinear_arith)
            requires
                1 <= n <= len,
        ;
        assert(-(n * n) <= sign(line.last(), me) * (n * n) <= n * n) by (nonlinear_arith)
            requires
                -1 <= sign(line.last(), me) <= 1,
        ;
    }
}

/// A line of empty cells scores nothing.
pub proof fn empty_line_scores_nothing(line: Seq<Color>, me: Color)
    requires
        forall|k: int| 0 <= k < line.len() ==> line[k] == Color::Empty,
    ensures
        line_score(line, me) == 0,
    decreases line.len(),
{
    if line.len() > 0 {
        last_run_bounds(line);
        let n = last_run(line);
        empty_line_scores_nothing(line.take(line.len() - n), me);
        assert(sign(line.last(), me) * (n * n) == 0) by (nonlinear_arith)
            requires
                sign(line.last(), me) == 0,
        ;
    }
}

/// A board without a stone scores nothing, for either player and for none.
pub proof fn bare_board_scores_nothing(cells: Seq<Seq<Color>>, me: Color)
    requires
        forall|x: int| 0 <= x < cells.len() ==> (#[trigger] cells[x]).len() == width(cells),
        forall|x: int, y: int|
            0 <= x < cells.len() && 0 <= y < width(cells) ==> cells[x][y] == Color::Empty,
    ensures
        board_score(cells, me) == 0,
{
    bare_rows_score_nothing(cells, me, cells.len());
    bare_columns_score_nothing(cells, me, width(cells));
}

proof fn bare_rows_score_nothing(cells: Seq<Seq<Color>>, me: Color, n: nat)
    requires
        n <= cells.len(),
        forall|x: int| 0 <= x < cells.len() ==> (#[trigger] cells[x]).len() == width(cells),
        forall|x: int, y: int|
            0 <= x < cells.len() && 0 <= y < width(cells) ==> cells[x][y] == Color::Empty,
    ensures
        rows_score(cells, me, n) == 0,
    decreases n,
{
    if n > 0 {
        bare_rows_score_nothing(cells, me, (n - 1) as nat);
        empty_line_scores_nothing(cells[n - 1], me);
    }
}

proof fn bare_columns_score_nothing(cells: Seq<Seq<Color>>, me: Color, n: nat)
    requires
        n <= width(cells),
        forall|x: int| 0 <= x < cells.len() ==> (#[trigger] cells[x]).len() == width(cells),
        forall|x: int, y: int|
            0 <= x < cells.len() && 0 <= y < width(cells) ==> cells[x][y] == Color::Empty,
    ensures
        columns_score(cells, me, n) == 0,
    decreases n,
{
    if n > 0 {
        bare_columns_score_nothing(cells, me, (n - 1) as nat);
        empty_line_scores_nothing(column(cells, n - 1), me);
    }
}

/// The signed square of a finished run.
fn run_value(run: Color, length: usize, me: Color) -> (v: i64)
    requires
        length * length <= i64::MAX,
    ensures
        v == sign(run, me) * (length * length),
        -(length * length) <= v <= length * length,
{
    assert(length <= length * length || length == 0) by (nonlinear_arith);
    let l: i64 = length as i64;
    let square: i64 = l * l;
    assert(sign(run, me) * (length * length) == if run == Color::Empty {
        0
    } else if run == me {
        length * length
    } else {
        -(length * length)
    }) by (nonlinear_arith)
        requires
            sign(run, me) == if run == Color::Empty {
                0int
            } else if run == me {
                1int
            } else {
                -1int
            },
    ;
    if run == Color::Empty {
        0
    } else if run == me {
        square
    } else {
        -square
    }
}

/// The cell `k` of a line of the board: row `index` when `along_row`, else
/// column `index`.
pub open spec fn line_of(cells: Seq<Seq<Color>>, along_row: bool, index: int) -> Seq<Color> {
    if along_row {
        cells[index]
    } else {
        column(cells, index)
    }
}

/// Scores one row or one column: walks the line, squares each run as it
/// ends, and closes the last run at the end of the line.
fn score_line(board: &Grid<Color>, along_row: bool, index: usize, len: usize, me: Color) -> (score:
    i64)
    requires
        measurable(grid_cells(*board)),
        along_row ==> index < grid_cells(*board).len() && len == width(grid_cells(*board)),
        !along_row ==> index < width(grid_cells(*board)) && len == grid_cells(*board).len(),
    ensures
        score == line_score(line_of(grid_cells(*board), along_row, index as int), me),
{
    let ghost cells = grid_cells(*board);
    let ghost line = line_of(cells, along_row, index as int);
    assert(line.len() == len);
    assert(len * len <= i64::MAX) by (nonlinear_arith)
        requires
            score_limit(cells.len(), width(cells)) <= i64::MAX,
            (len == width(cells) && cells.len() >= 1) || (len == cells.len() && width(cells) >= 1),
    ;
    let mut total: i64 = 0;
    let mut run: Color = Color::Empty;
    let mut length: usize = 0;
    let mut k: usize = 0;
    assert(line.take(0).len() == 0);
    while k < len
        invariant
            cells == grid_cells(*board),
            measurable(cells),
            line == line_of(cells, along_row, index as int),
            line.len() == len,
            len * len <= i64::MAX,
            along_row ==> index < cells.len(),
            !along_row ==> index < width(cells),
            k <= len,
            length <= k,
            length == last_run(line.take(k as int)),
            k > 0 ==> run == line[k - 1],
            total == line_score(line.take(k - length), me),
        decreases len - k,
    {
        let here = if along_row {
            color_in(board, index, k)
        } else {
            color_in(board, k, index)
        };
        assert(here == line[k as int]);
        proof {
            let before = line.take(k as int);
            let now = line.take(k + 1);
            assert(now.drop_last() =~= before);
            assert(now.last() == here);
            if k > 0 {
                assert(now[now.len() - 2] == run);
                last_run_bounds(before);
            }
            line_score_bounds(line.take(k - length), me);
            assert((k - length) * (k - length) + length * length <= len * len && length * length
                <= len * len) by (nonlinear_arith)
                requires
                    0 <= length <= k <= len,
            ;
            assert(line.take(k - length).len() == k - length);
        }
        if k > 0 && here == run {
            length = length + 1;
        } else {
            proof {
                let before = line.take(k as int);
                if k > 0 {
                    assert(before.take(before.len() - length) =~= line.take(k - length));
                    assert(before.last() == run);
                    assert(line_score(before, me) == line_score(line.take(k - length), me) + sign(
                        run,
                        me,
                    ) * (length * length));
                } else {
                    assert(line_score(before, me) == 0);
                }
            }
            total = total + run_value(run, length, me);
            run = here;
            length = 1;
        }
        k = k + 1;
    }
    proof {
        assert(line.take(len as int) =~= line);
        if len > 0 {
            last_run_bounds(line);
            assert(run == line.last());
            assert(line_score(line, me) == line_score(line.take(len - length), me) + sign(run, me)
                * (length * length));
        } else {
            assert(length == 0);
            assert(line_score(line, me) == 0);
            assert(line.take(0) =~= line);
        }
        line_score_bounds(line.take(len - length), me);
        assert(line.take(len - length).len() == len - length);
        assert((len - length) * (len - length) + length * length <= len * len && length * length
            <= len * len) by (nonlinear_arith)
            requires
                0 <= length <= len,
        ;
    }
    total + run_value(run, length, me)
}

/// The first `n` rows together score within `n` times the squared width.
proof fn rows_score_bounds(cells: Seq<Seq<Color>>, me: Color, n: nat)
    requires
        forall|x: int| 0 <= x < cells.len() ==> (#[trigger] cells[x]).len() == width(cells),
        n <= cells.len(),
    ensures
        -(n * (width(cells) * width(cells))) <= rows_score(cells, me, n) <= n * (width(cells)
            * width(cells)),
    decreases n,
{
    if n > 0 {
        rows_score_bounds(cells, me, (n - 1) as nat);
        line_score_bounds(cells[n - 1], me);
        let w = width(cells) as int;
        assert(n * (w * w) == (n - 1) * (w * w) + w * w) by (nonlinear_arith);
    }
}

/// The first `n` columns together score within `n` times the squared height.
proof fn columns_score_bounds(cells: Seq<Seq<Color>>, me: Color, n: nat)
    ensures
        -(n * (cells.len() * cells.len())) <= columns_score(cells, me, n) <= n * (cells.len()
            * cells.len()),
    decreases n,
{
    if n > 0 {
        columns_score_bounds(cells, me, (n - 1) as nat);
        line_score_bounds(column(cells, n - 1), me);
        let h = cells.len() as int;
        assert(n * (h * h) == (n - 1) * (h * h) + h * h) by (nonlinear_arith);
    }
}

/// Whether the game's board can be evaluated.
pub fn is_measurable(game: &Game) -> (yes: bool)
    ensures
        yes == measurable(game@.cells),
{
    let rows = grid_rows(&game.board);
    let cols = grid_cols(&game.board);
    if rows == 0 || cols == 0 {
        assert(score_limit(game@.cells.len(), width(game@.cells)) == 0) by (nonlinear_arith)
            requires
                game@.cells.len() == 0 || width(game@.cells) == 0,
        ;
        return true;
    }
    let limit: u128 = 0x7fff_ffff_ffff_ffff;
    let r: u128 = rows as u128;
    let c: u128 = cols as u128;
    assert(score_limit(rows as nat, cols as nat) == r * c * (r + c) && r * c * (r + c) >= r * c
        && r * c >= r && r * c >= c) by (nonlinear_arith)
        requires
            r == rows,
            c == cols,
            r >= 1,
            c >= 1,
    ;
    if r > limit || c > limit {
        return false;
    }
    assert(r * c <= 0x7fff_ffff_ffff_ffff * 0x7fff_ffff_ffff_ffff) by (nonlinear_arith)
        requires
            0 <= r <= 0x7fff_ffff_ffff_ffff,
            0 <= c <= 0x7fff_ffff_ffff_ffff,
    ;
    let area: u128 = r * c;
    if area > limit {
        return false;
    }
    assert(area * (r + c) <= 0x7fff_ffff_ffff_ffff * 0xffff_ffff_ffff_fffe) by (nonlinear_arith)
        requires
            0 <= area <= 0x7fff_ffff_ffff_ffff,
            0 <= r + c <= 0xffff_ffff_ffff_fffe,
    ;
    area * (r + c) <= limit
}

/// How favourable the position is for `color`: over every row and every
/// column, the squared lengths of the runs of stones, those of `color`
/// counted for and those of the other player against.
pub fn evaluate(game: &Game, color: Color) -> (score: i64)
    requires
        measurable(game@.cells),
    ensures
        score == board_score(game@.cells, color),
{
    let ghost cells = game@.cells;
    let rows = grid_rows(&game.board);
    let cols = if rows == 0 {
        0
    } else {
        grid_cols(&game.board)
    };
    assert(cols == width(cells));
    let ghost h = rows as int;
    let ghost w = cols as int;
    let mut total: i64 = 0;
    let mut x: usize = 0;
    while x < rows
        invariant
            cells == grid_cells(game.board),
            measurable(cells),
            rows == cells.len(),
            cols == width(cells),
            h == rows,
            w == cols,
            x <= rows,
            total == rows_score(cells, color, x as nat),
        decreases rows - x,
    {
        proof {
            rows_score_bounds(cells, color, x as nat);
            line_score_bounds(cells[x as int], color);
            assert((x + 1) * (w * w) <= h * (w * w) && x * (w * w) + w * w == (x + 1) * (w * w)
                && h * (w * w) <= score_limit(h as nat, w as nat)) by (nonlinear_arith)
                requires
                    0 <= x < h,
                    0 <= w,
            ;
        }
        total = total + score_line(&game.board, true, x, cols, color);
        x = x + 1;
    }
    let mut y: usize = 0;
    while y < cols
        invariant
            cells == grid_cells(game.board),
            measurable(cells),
            rows == cells.len(),
            cols == width(cells),
            h == rows,
            w == cols,
            y <= cols,
            total == rows_score(cells, color, rows as nat) + columns_score(cells, color, y as nat),
        decreases cols - y,
    {
        proof {
            rows_score_bounds(cells, color, rows as nat);
            columns_score_bounds(cells, color, y as nat);
            line_score_bounds(column(cells, y as int), color);
            assert(h * (w * w) + (y + 1) * (h * h) <= score_limit(h as nat, w as nat) && y * (h
                * h) + h * h == (y + 1) * (h * h)) by (nonlinear_arith)
                requires
                    0 <= y < w,
                    0 <= h,
            ;
        }
        total = total + score_line(&game.board, false, y, rows, color);
        y = y + 1;
    }
    total
}

} // verus!
