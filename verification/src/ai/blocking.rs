//! What a stone of the other player does to the evaluation: on whatever
//! empty cell it lands, the score falls. A run blocked at both ends
//! therefore scores lower than the same run with its ends open.

use vstd::prelude::*;
use crate::game::color::Color;
use crate::game::grid_board::{cell_at, with_cell};
use crate::game::win::{cell_along, Axis};
use super::evaluate::{
    board_score, column, columns_score, last_run, last_run_bounds, line_score, rows_score, sign,
    width,
};

verus! {

/// One more cell at the end of a line adds, with its sign, the odd number
/// that takes the square of its run's length from the one before.
pub proof fn line_score_grows(line: Seq<Color>, cell: Color, me: Color)
    ensures
        line_score(line.push(cell), me) == line_score(line, me) + sign(cell, me) * (2 * last_run(
            line.push(cell),
        ) - 1),
{
    let longer = line.push(cell);
    let n = last_run(longer) as int;
    let s = sign(cell, me);
    last_run_bounds(longer);
    assert(longer.drop_last() =~= line);
    if line.len() >= 1 && line.last() == cell {
        last_run_bounds(line);
        let m = last_run(line) as int;
        assert(n == m + 1);
        assert(longer.take(longer.len() - n) =~= line.take(line.len() - m));
        assert(s * (n * n) == s * (m * m) + s * (2 * n - 1)) by (nonlinear_arith)
            requires
                n == m + 1,
        ;
    } else {
        assert(n == 1);
        assert(longer.take(longer.len() - 1) =~= line);
        assert(s * (n * n) == s * (2 * n - 1)) by (nonlinear_arith)
            requires
                n == 1,
        ;
    }
}

/// Past a stone put on an empty cell of a line, a run of the stone's colour
/// is at least as long as it was, and a run of the other player's colour is
/// as long as it was.
proof fn runs_past_a_stone(line: Seq<Color>, k: int, stone: Color, j: int)
    requires
        0 <= k < j < line.len(),
        line[k] == Color::Empty,
        stone != Color::Empty,
    ensures
        line[j] == stone ==> last_run(line.update(k, stone).take(j + 1)) >= last_run(
            line.take(j + 1),
        ),
        line[j] != stone && line[j] != Color::Empty ==> last_run(
            line.update(k, stone).take(j + 1),
        ) == last_run(line.take(j + 1)),
    decreases j,
{
    let other = line.update(k, stone);
    let a = line.take(j + 1);
    let b = other.take(j + 1);
    assert(a.drop_last() =~= line.take(j));
    assert(b.drop_last() =~= other.take(j));
    last_run_bounds(a);
    last_run_bounds(b);
    if j - 1 > k && line[j - 1] == line[j] {
        runs_past_a_stone(line, k, stone, j - 1);
    }
}

/// A stone of the other player on an empty cell of a line does not raise
/// the score of any part of the line from its start, and lowers the score
/// of every part that holds the stone.
proof fn stone_lowers_line_from_start(line: Seq<Color>, k: int, stone: Color, me: Color, n: int)
    requires
        0 <= k < line.len(),
        0 <= n <= line.len(),
        line[k] == Color::Empty,
        stone != Color::Empty,
        stone != me,
    ensures
        line_score(line.update(k, stone).take(n), me) <= line_score(line.take(n), me) - if n > k {
            1int
        } else {
            0int
        },
    decreases n,
{
    let other = line.update(k, stone);
    if n <= k {
        assert(other.take(n) =~= line.take(n));
    } else {
        let j = n - 1;
        stone_lowers_line_from_start(line, k, stone, me, j);
        assert(line.take(n) =~= line.take(j).push(line[j]));
        assert(other.take(n) =~= other.take(j).push(other[j]));
        line_score_grows(line.take(j), line[j], me);
        line_score_grows(other.take(j), other[j], me);
        last_run_bounds(line.take(n));
        last_run_bounds(other.take(n));
        let ra = last_run(line.take(n)) as int;
        let rb = last_run(other.take(n)) as int;
        let sa = sign(line[j], me);
        let sb = sign(other[j], me);
        if j == k {
            assert(sa * (2 * ra - 1) == 0) by (nonlinear_arith)
                requires
                    sa == 0,
            ;
            assert(sb * (2 * rb - 1) <= -1) by (nonlinear_arith)
                requires
                    sb == -1,
                    rb >= 1,
            ;
        } else {
            runs_past_a_stone(line, k, stone, j);
            assert(sb * (2 * rb - 1) <= sa * (2 * ra - 1)) by (nonlinear_arith)
                requires
                    sa == sb,
                    -1 <= sa <= 1,
                    sa == 0 || (sa == -1 && rb >= ra) || rb == ra,
            ;
        }
    }
}

/// A stone of the other player on an empty cell of a line lowers the
/// line's score.
pub proof fn opposing_stone_lowers_line(line: Seq<Color>, k: int, stone: Color, me: Color)
    requires
        0 <= k < line.len(),
        line[k] == Color::Empty,
        stone != Color::Empty,
        stone != me,
    ensures
        line_score(line.update(k, stone), me) < line_score(line, me),
{
    stone_lowers_line_from_start(line, k, stone, me, line.len() as int);
    assert(line.take(line.len() as int) =~= line);
    assert(line.update(k, stone).take(line.len() as int) =~= line.update(k, stone));
}

proof fn stone_lowers_rows(cells: Seq<Seq<Color>>, x: int, y: int, stone: Color, me: Color, n: nat)
    requires
        cell_at(cells, x, y) == Some(Color::Empty),
        stone != Color::Empty,
        stone != me,
        n <= cells.len(),
    ensures
        rows_score(with_cell(cells, x, y, stone), me, n) <= rows_score(cells, me, n) - if n > x {
            1int
        } else {
            0int
        },
    decreases n,
{
    if n > 0 {
        stone_lowers_rows(cells, x, y, stone, me, (n - 1) as nat);
        if n - 1 == x {
            opposing_stone_lowers_line(cells[x], y, stone, me);
        }
    }
}

proof fn stone_lowers_columns(
    cells: Seq<Seq<Color>>,
    x: int,
    y: int,
    stone: Color,
    me: Color,
    n: nat,
)
    requires
        forall|i: int| 0 <= i < cells.len() ==> (#[trigger] cells[i]).len() == width(cells),
        cell_at(cells, x, y) == Some(Color::Empty),
        stone != Color::Empty,
        stone != me,
        n <= width(cells),
    ensures
        columns_score(with_cell(cells, x, y, stone), me, n) <= columns_score(cells, me, n) - if n
            > y {
            1int
        } else {
            0int
        },
    decreases n,
{
    if n > 0 {
        stone_lowers_columns(cells, x, y, stone, me, (n - 1) as nat);
        let next = with_cell(cells, x, y, stone);
        if n - 1 == y {
            assert(column(next, y) =~= column(cells, y).update(x, stone));
            opposing_stone_lowers_line(column(cells, y), x, stone, me);
        } else {
            assert(column(next, n - 1) =~= column(cells, n - 1)) by {
                assert forall|i: int| 0 <= i < cells.len() implies next[i][n - 1] == cells[i][n
                    - 1] by {
                    assert(cells[i].len() == width(cells));
                }
            }
        }
    }
}

/// A stone of the other player on an empty cell of the board lowers the
/// board's score for `me`.
pub proof fn opposing_stone_lowers_score(
    cells: Seq<Seq<Color>>,
    x: int,
    y: int,
    stone: Color,
    me: Color,
)
    requires
        forall|i: int| 0 <= i < cells.len() ==> (#[trigger] cells[i]).len() == width(cells),
        cell_at(cells, x, y) == Some(Color::Empty),
        stone != Color::Empty,
        stone != me,
    ensures
        board_score(with_cell(cells, x, y, stone), me) < board_score(cells, me),
{
    let next = with_cell(cells, x, y, stone);
    assert(cells[x].len() == width(cells));
    assert(width(next) == width(cells));
    stone_lowers_rows(cells, x, y, stone, me, cells.len());
    stone_lowers_columns(cells, x, y, stone, me, width(cells));
}

/// A run of four stones of `me` along `axis`, starting at `(x, y)`, with
/// the cells just past its two ends on the board and empty, scores higher
/// for `me` than the same board with a stone of the other player on each
/// of those two cells.
pub proof fn open_four_outscores_blocked_four(
    cells: Seq<Seq<Color>>,
    axis: Axis,
    x: int,
    y: int,
    me: Color,
    blocker: Color,
)
    requires
        forall|i: int| 0 <= i < cells.len() ==> (#[trigger] cells[i]).len() == width(cells),
        me != Color::Empty,
        blocker != Color::Empty,
        blocker != me,
        forall|k: int| 0 <= k < 4 ==> cell_along(cells, axis, x, y, k) == Some(me),
        cell_along(cells, axis, x, y, -1) == Some(Color::Empty),
        cell_along(cells, axis, x, y, 4) == Some(Color::Empty),
    ensures
        board_score(
            with_cell(
                with_cell(cells, axis.at(x, y, -1).0, axis.at(x, y, -1).1, blocker),
                axis.at(x, y, 4).0,
                axis.at(x, y, 4).1,
                blocker,
            ),
            me,
        ) < board_score(cells, me),
{
    let before = axis.at(x, y, -1);
    let after = axis.at(x, y, 4);
    let half = with_cell(cells, before.0, before.1, blocker);
    opposing_stone_lowers_score(cells, before.0, before.1, blocker, me);
    assert(cells[before.0].len() == width(cells));
    assert(width(half) == width(cells));
    assert forall|i: int| 0 <= i < half.len() implies (#[trigger] half[i]).len() == width(half) by {
        assert(cells[i].len() == width(cells));
    }
    assert(cell_at(half, after.0, after.1) == Some(Color::Empty));
    opposing_stone_lowers_score(half, after.0, after.1, blocker, me);
}

} // verus!
