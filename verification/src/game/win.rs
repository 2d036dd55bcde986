//! Win detection: five stones of one colour in a line through a cell.

use vstd::prelude::*;
use grid::Grid;
use super::color::Color;
use super::grid_board::{cell_at, color_in, grid_cells, grid_cols, grid_rows};

verus! {

/// The four lines that run through a cell.
#[derive(Clone, Copy, Debug, PartialEq, Eq, Structural)]
pub enum Axis {
    /// `x` varies, `y` is fixed.
    AlongX,
    /// `y` varies, `x` is fixed.
    AlongY,
    /// `x` and `y` grow together.
    Diagonal,
    /// `x` grows as `y` shrinks.
    AntiDiagonal,
}

impl Axis {
    /// The coordinate `k` steps from `(x, y)` along this axis.
    pub open spec fn at(self, x: int, y: int, k: int) -> (int, int) {
        match self {
            Axis::AlongX => (x + k, y),
            Axis::AlongY => (x, y + k),
            Axis::Diagonal => (x + k, y + k),
            Axis::AntiDiagonal => (x + k, y - k),
        }
    }
}

/// The colour `k` steps from `(x, y)` along `axis`, if the board reaches there.
pub open spec fn cell_along(cells: Seq<Seq<Color>>, axis: Axis, x: int, y: int, k: int) -> Option<
    Color,
> {
    cell_at(cells, axis.at(x, y, k).0, axis.at(x, y, k).1)
}

/// The five cells at steps `s .. s + 5` from `(x, y)` along `axis` all hold `color`.
pub open spec fn five_from(
    cells: Seq<Seq<Color>>,
    axis: Axis,
    x: int,
    y: int,
    s: int,
    color: Color,
) -> bool {
    forall|k: int| s <= k < s + 5 ==> cell_along(cells, axis, x, y, k) == Some(color)
}

/// Five consecutive cells along `axis`, `(x, y)` among them, all hold `color`.
pub open spec fn line_through(cells: Seq<Seq<Color>>, axis: Axis, x: int, y: int, color: Color) -> bool {
    exists|s: int| -4 <= s <= 0 && five_from(cells, axis, x, y, s, color)
}

/// A player's stones form five in a line through `(x, y)`, along one of the
/// four axes. The empty colour never wins.
pub open spec fn wins_at(cells: Seq<Seq<Color>>, x: int, y: int, color: Color) -> bool {
    color != Color::Empty && (line_through(cells, Axis::AlongX, x, y, color) || line_through(
        cells,
        Axis::AlongY,
        x,
        y,
        color,
    ) || line_through(cells, Axis::Diagonal, x, y, color) || line_through(
        cells,
        Axis::AntiDiagonal,
        x,
        y,
        color,
    ))
}

/// A run of five or more cells of `color` along `axis`, from step `a` to
/// step `b` with `(x, y)` among them, holds five that make a line through
/// `(x, y)`.
pub proof fn long_run_is_a_line(
    cells: Seq<Seq<Color>>,
    axis: Axis,
    x: int,
    y: int,
    a: int,
    b: int,
    color: Color,
)
    requires
        a <= 0 <= b,
        b - a + 1 >= 5,
        forall|k: int| a <= k <= b ==> cell_along(cells, axis, x, y, k) == Some(color),
    ensures
        line_through(cells, axis, x, y, color),
{
    let s = if a >= -4 {
        a
    } else {
        -4
    };
    assert(five_from(cells, axis, x, y, s, color));
}

/// `v + i - 4`, where that is a `usize`.
fn ahead(v: usize, i: usize) -> (r: Option<usize>)
    requires
        i <= 8,
    ensures
        r == if 0 <= v + i - 4 <= usize::MAX {
            Some((v + i - 4) as usize)
        } else {
            None
        },
{
    if i >= 4 {
        if v <= usize::MAX - (i - 4) {
            Some(v + (i - 4))
        } else {
            None
        }
    } else if v >= 4 - i {
        Some(v - (4 - i))
    } else {
        None
    }
}

/// `v - (i - 4)`, where that is a `usize`.
fn behind(v: usize, i: usize) -> (r: Option<usize>)
    requires
        i <= 8,
    ensures
        r == if 0 <= v - (i - 4) <= usize::MAX {
            Some((v - (i - 4)) as usize)
        } else {
            None
        },
{
    ahead(v, 8 - i)
}

/// The colour `i - 4` steps from `(x, y)` along `axis`, on a board of
/// `rows` by `cols`.
fn color_along(
    board: &Grid<Color>,
    rows: usize,
    cols: usize,
    axis: Axis,
    x: usize,
    y: usize,
    i: usize,
) -> (c: Option<Color>)
    requires
        i <= 8,
        rows == grid_cells(*board).len(),
        forall|r: int| 0 <= r < rows ==> (#[trigger] grid_cells(*board)[r]).len() == cols,
    ensures
        c == cell_along(grid_cells(*board), axis, x as int, y as int, i - 4),
{
    let px = match axis {
        Axis::AlongY => Some(x),
        _ => ahead(x, i),
    };
    let py = match axis {
        Axis::AlongX => Some(y),
        Axis::AntiDiagonal => behind(y, i),
        _ => ahead(y, i),
    };
    match (px, py) {
        (Some(px), Some(py)) => if px < rows && py < cols {
            Some(color_in(board, px, py))
        } else {
            None
        },
        _ => None,
    }
}

/// Scans the nine cells centred on `(x, y)` along `axis`, counting the
/// current run of `color`; any other cell, or the board's edge, ends a run.
pub fn has_line_through(board: &Grid<Color>, axis: Axis, x: usize, y: usize, color: Color) -> (r:
    bool)
    ensures
        r == line_through(grid_cells(*board), axis, x as int, y as int, color),
{
    let ghost cells = grid_cells(*board);
    let ghost gx = x as int;
    let ghost gy = y as int;
    let rows = grid_rows(board);
    let cols = grid_cols(board);
    let mut counter: usize = 0;
    let mut i: usize = 0;
    while i < 9
        invariant
            cells == grid_cells(*board),
            rows == cells.len(),
            forall|r: int| 0 <= r < rows ==> (#[trigger] cells[r]).len() == cols,
            gx == x as int,
            gy == y as int,
            i <= 9,
            counter <= i,
            counter < 5,
            forall|k: int|
                i - counter - 4 <= k < i - 4 ==> cell_along(cells, axis, gx, gy, k) == Some(color),
            counter < i ==> cell_along(cells, axis, gx, gy, i - counter - 1 - 4) != Some(color),
            forall|s: int| -4 <= s && s + 4 < i - 4 ==> !five_from(cells, axis, gx, gy, s, color),
        decreases 9 - i,
    {
        let here = color_along(board, rows, cols, axis, x, y, i);
        let same = match here {
            Some(c) => c == color,
            None => false,
        };
        if same {
            counter = counter + 1;
            if counter >= 5 {
                assert(five_from(cells, axis, gx, gy, i - 8, color)) by {
                    assert forall|k: int| i - 8 <= k < i - 8 + 5 implies cell_along(
                        cells,
                        axis,
                        gx,
                        gy,
                        k,
                    ) == Some(color) by {
                        assert(i + 1 - counter - 4 <= k < i + 1 - 4);
                    }
                }
                return true;
            }
            assert(i >= 4 ==> !five_from(cells, axis, gx, gy, i - 8, color)) by {
                if i >= 4 {
                    let k = i - counter - 4;
                    assert(i - 8 <= k < i - 8 + 5);
                    assert(cell_along(cells, axis, gx, gy, k) != Some(color));
                }
            }
        } else {
            counter = 0;
            assert(i >= 4 ==> !five_from(cells, axis, gx, gy, i - 8, color)) by {
                if i >= 4 {
                    assert(cell_along(cells, axis, gx, gy, i - 4) != Some(color));
                }
            }
        }
        i = i + 1;
    }
    false
}

} // verus!
