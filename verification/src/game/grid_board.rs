//! The dense board: a `grid::Grid` of colours, reached through a handful of
//! trusted operations whose contracts speak of the grid's rows.

use vstd::prelude::*;
use grid::Grid;
use super::color::Color;

verus! {

/// `grid::Grid`, made known so that a game can hold one. Nothing inside
/// it is visible: what it holds is read through `grid_cells`.
#[verifier::external_type_specification]
#[verifier::external_body]
#[verifier::reject_recursive_types(T)]
pub struct ExGrid<T>(Grid<T>);

/// The rows of a grid, top to bottom, each row the colours of its cells
/// from left to right. There are `rows()` rows, each `cols()` long.
pub uninterp spec fn grid_cells(g: Grid<Color>) -> Seq<Seq<Color>>;

/// `Grid::new`: a grid of `rows` by `cols` default cells, which for `Color`
/// are empty. The crate makes a grid without rows when either count is 0,
/// and panics when the product does not fit, which `requires` excludes.
#[verifier::external_body]
pub(crate) fn grid_new(rows: usize, cols: usize) -> (g: Grid<Color>)
    requires
        rows * cols <= isize::MAX,
    ensures
        grid_cells(g) == if rows == 0 || cols == 0 {
            Seq::<Seq<Color>>::empty()
        } else {
            Seq::new(rows as nat, |i: int| Seq::new(cols as nat, |j: int| Color::Empty))
        },
{
    Grid::new(rows, cols)
}

/// `Grid::clone`: a grid of its own with the same rows.
#[verifier::external_body]
pub(crate) fn grid_clone(g: &Grid<Color>) -> (copy: Grid<Color>)
    ensures
        grid_cells(copy) == grid_cells(*g),
{
    g.clone()
}

/// `Grid::rows`: the number of rows.
#[verifier::external_body]
pub(crate) fn grid_rows(g: &Grid<Color>) -> (n: usize)
    ensures
        n == grid_cells(*g).len(),
{
    g.rows()
}

/// `Grid::cols`: the number of columns, which is the length of every row.
#[verifier::external_body]
pub(crate) fn grid_cols(g: &Grid<Color>) -> (n: usize)
    ensures
        forall|i: int| 0 <= i < grid_cells(*g).len() ==> (#[trigger] grid_cells(*g)[i]).len() == n,
{
    g.cols()
}

/// `Grid::get`: the cell at a row and column, or nothing outside the grid.
#[verifier::external_body]
pub(crate) fn grid_get(g: &Grid<Color>, row: usize, col: usize) -> (c: Option<Color>)
    ensures
        c == cell_at(grid_cells(*g), row as int, col as int),
{
    g.get(row, col).copied()
}

/// `Grid::get_mut`, written through: the cell at a row and column inside
/// the grid takes the given colour, and no other cell changes. Outside the
/// grid there is no cell to write, which `requires` excludes.
#[verifier::external_body]
pub(crate) fn grid_set(g: &mut Grid<Color>, row: usize, col: usize, color: Color)
    requires
        cell_at(grid_cells(*old(g)), row as int, col as int) is Some,
    ensures
        grid_cells(*final(g)) == with_cell(grid_cells(*old(g)), row as int, col as int, color),
{
    *g.get_mut(row, col).unwrap() = color;
}

/// The colour of a cell of the board.
pub fn color_in(g: &Grid<Color>, row: usize, col: usize) -> (c: Color)
    requires
        cell_at(grid_cells(*g), row as int, col as int) is Some,
    ensures
        c == grid_cells(*g)[row as int][col as int],
{
    grid_get(g, row, col).unwrap()
}

/// The colour at row `x`, column `y`, or nothing where the rows do not reach.
pub open spec fn cell_at(cells: Seq<Seq<Color>>, x: int, y: int) -> Option<Color> {
    if 0 <= x < cells.len() && 0 <= y < cells[x].len() {
        Some(cells[x][y])
    } else {
        None
    }
}

/// The rows with the cell at row `x`, column `y` replaced.
pub open spec fn with_cell(cells: Seq<Seq<Color>>, x: int, y: int, color: Color) -> Seq<Seq<Color>> {
    cells.update(x, cells[x].update(y, color))
}

/// Emptying a cell that a stone was put on gives the board back.
pub proof fn stone_taken_back(cells: Seq<Seq<Color>>, x: int, y: int, color: Color)
    requires
        cell_at(cells, x, y) == Some(Color::Empty),
    ensures
        with_cell(with_cell(cells, x, y, color), x, y, Color::Empty) == cells,
{
    let back = with_cell(with_cell(cells, x, y, color), x, y, Color::Empty);
    assert(back[x] =~= cells[x]);
    assert(back =~= cells);
}

} // verus!
