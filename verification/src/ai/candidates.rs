//! Candidate moves: the empty cells near the stones already placed.

use vstd::prelude::*;
use grid::Grid;
use crate::game::Game;
use crate::game::color::Color;
use crate::game::grid_board::{cell_at, grid_cells, grid_cols, grid_get, grid_rows};
use super::evaluate::{measurable, width};

verus! {

/// How far beyond the stones' bounding box the search looks for moves.
pub const MARGIN: usize = 2;

/// A rectangle of coordinates, both ends included.
#[derive(Clone, Copy, Debug, PartialEq, Eq, Structural)]
pub struct Bounds {
    pub min_x: usize,
    pub max_x: usize,
    pub min_y: usize,
    pub max_y: usize,
}

impl Bounds {
    /// The rectangle holds the coordinate.
    pub open spec fn holds(self, x: int, y: int) -> bool {
        self.min_x <= x <= self.max_x && self.min_y <= y <= self.max_y
    }
}

/// There is a stone at `(x, y)`.
pub open spec fn is_stone(cells: Seq<Seq<Color>>, x: int, y: int) -> bool {
    cell_at(cells, x, y) is Some && cell_at(cells, x, y) != Some(Color::Empty)
}

/// The board bears no stone.
pub open spec fn bare(cells: Seq<Seq<Color>>) -> bool {
    forall|x: int, y: int| !is_stone(cells, x, y)
}

/// `b` is the bounding box of the stones: it holds them all and a stone
/// lies on each of its sides. For a bare board it is the origin alone.
pub open spec fn frames(b: Bounds, cells: Seq<Seq<Color>>) -> bool {
    if bare(cells) {
        b == (Bounds { min_x: 0, max_x: 0, min_y: 0, max_y: 0 })
    } else {
        &&& forall|x: int, y: int| is_stone(cells, x, y) ==> b.holds(x, y)
        &&& exists|y: int| is_stone(cells, b.min_x as int, y)
        &&& exists|y: int| is_stone(cells, b.max_x as int, y)
        &&& exists|x: int| is_stone(cells, x, b.min_y as int)
        &&& exists|x: int| is_stone(cells, x, b.max_y as int)
    }
}

/// The bounding box of the stones on the board.
pub open spec fn stone_bounds(cells: Seq<Seq<Color>>) -> Bounds {
    choose|b: Bounds| frames(b, cells)
}

/// A board has one bounding box.
pub proof fn frames_once(a: Bounds, b: Bounds, cells: Seq<Seq<Color>>)
    requires
        frames(a, cells),
        frames(b, cells),
    ensures
        a == b,
{
    if !bare(cells) {
        let y1 = choose|y: int| is_stone(cells, a.min_x as int, y);
        assert(b.holds(a.min_x as int, y1));
        let y2 = choose|y: int| is_stone(cells, b.min_x as int, y);
        assert(a.holds(b.min_x as int, y2));
        let y3 = choose|y: int| is_stone(cells, a.max_x as int, y);
        assert(b.holds(a.max_x as int, y3));
        let y4 = choose|y: int| is_stone(cells, b.max_x as int, y);
        assert(a.holds(b.max_x as int, y4));
        let x1 = choose|x: int| is_stone(cells, x, a.min_y as int);
        assert(b.holds(x1, a.min_y as int));
        let x2 = choose|x: int| is_stone(cells, x, b.min_y as int);
        assert(a.holds(x2, b.min_y as int));
        let x3 = choose|x: int| is_stone(cells, x, a.max_y as int);
        assert(b.holds(x3, a.max_y as int));
        let x4 = choose|x: int| is_stone(cells, x, b.max_y as int);
        assert(a.holds(x4, b.max_y as int));
    }
}

/// Finds the bounding box of the stones by a walk over the whole board.
pub fn bounding_box(board: &Grid<Color>) -> (b: Bounds)
    ensures
        b == stone_bounds(grid_cells(*board)),
{
    let ghost cells = grid_cells(*board);
    let rows = grid_rows(board);
    let cols = grid_cols(board);
    let mut found = false;
    let mut b = Bounds { min_x: 0, max_x: 0, min_y: 0, max_y: 0 };
    let ghost mut at_min_x: int = 0;
    let ghost mut at_max_x: int = 0;
    let ghost mut at_min_y: int = 0;
    let ghost mut at_max_y: int = 0;
    let mut x: usize = 0;
    while x < rows
        invariant
            cells == grid_cells(*board),
            rows == cells.len(),
            forall|i: int| 0 <= i < cells.len() ==> (#[trigger] cells[i]).len() == cols,
            x <= rows,
            !found ==> b == (Bounds { min_x: 0, max_x: 0, min_y: 0, max_y: 0 }),
            !found ==> forall|px: int, py: int| px < x ==> !is_stone(cells, px, py),
            found ==> forall|px: int, py: int| px < x && is_stone(cells, px, py) ==> b.holds(px, py),
            found ==> is_stone(cells, b.min_x as int, at_min_x),
            found ==> is_stone(cells, b.max_x as int, at_max_x),
            found ==> is_stone(cells, at_min_y, b.min_y as int),
            found ==> is_stone(cells, at_max_y, b.max_y as int),
        decreases rows - x,
    {
        let mut y: usize = 0;
        while y < cols
            invariant
                cells == grid_cells(*board),
                rows == cells.len(),
                forall|i: int| 0 <= i < cells.len() ==> (#[trigger] cells[i]).len() == cols,
                x < rows,
                y <= cols,
                !found ==> b == (Bounds { min_x: 0, max_x: 0, min_y: 0, max_y: 0 }),
                !found ==> forall|px: int, py: int|
                    px < x || (px == x && py < y) ==> !is_stone(cells, px, py),
                found ==> forall|px: int, py: int|
                    (px < x || (px == x && py < y)) && is_stone(cells, px, py) ==> b.holds(px, py),
                found ==> is_stone(cells, b.min_x as int, at_min_x),
                found ==> is_stone(cells, b.max_x as int, at_max_x),
                found ==> is_stone(cells, at_min_y, b.min_y as int),
                found ==> is_stone(cells, at_max_y, b.max_y as int),
            decreases cols - y,
        {
            let stone = match grid_get(board, x, y) {
                Some(c) => c != Color::Empty,
                None => false,
            };
            assert(stone == is_stone(cells, x as int, y as int));
            if stone {
                if !found {
                    found = true;
                    b = Bounds { min_x: x, max_x: x, min_y: y, max_y: y };
                    proof {
                        at_min_x = y as int;
                        at_max_x = y as int;
                        at_min_y = x as int;
                        at_max_y = x as int;
                    }
                } else {
                    if x < b.min_x {
                        b.min_x = x;
                        proof {
                            at_min_x = y as int;
                        }
                    }
                    if x > b.max_x {
                        b.max_x = x;
                        proof {
                            at_max_x = y as int;
                        }
                    }
                    if y < b.min_y {
                        b.min_y = y;
                        proof {
                            at_min_y = x as int;
                        }
                    }
                    if y > b.max_y {
                        b.max_y = y;
                        proof {
                            at_max_y = x as int;
                        }
                    }
                }
            }
            y = y + 1;
        }
        x = x + 1;
    }
    proof {
        if found {
            assert(!bare(cells));
        }
        assert(frames(b, cells));
        frames_once(b, stone_bounds(cells), cells);
    }
    b
}

/// The first row, or column, searched: `MARGIN` before the first stone,
/// or the board's edge.
pub open spec fn low_edge(min: int) -> int {
    if min >= MARGIN {
        min - MARGIN
    } else {
        0
    }
}

/// The end of the rows, or columns, searched: `MARGIN` past the last
/// stone, or the board's edge.
pub open spec fn high_edge(max: int, extent: int) -> int {
    if max + MARGIN + 1 <= extent {
        max + MARGIN + 1
    } else {
        extent
    }
}

/// The empty cells of row `x` in columns `y0 .. y1`, left to right.
pub open spec fn row_candidates(cells: Seq<Seq<Color>>, x: int, y0: int, y1: int) -> Seq<
    (usize, usize),
>
    decreases y1 - y0,
{
    if y1 <= y0 {
        Seq::empty()
    } else if cell_at(cells, x, y1 - 1) == Some(Color::Empty) {
        row_candidates(cells, x, y0, y1 - 1).push((x as usize, (y1 - 1) as usize))
    } else {
        row_candidates(cells, x, y0, y1 - 1)
    }
}

/// The empty cells of rows `x0 .. x1` in columns `y0 .. y1`, row by row.
pub open spec fn area_candidates(cells: Seq<Seq<Color>>, x0: int, x1: int, y0: int, y1: int) -> Seq<
    (usize, usize),
>
    decreases x1 - x0,
{
    if x1 <= x0 {
        Seq::empty()
    } else {
        area_candidates(cells, x0, x1 - 1, y0, y1) + row_candidates(cells, x1 - 1, y0, y1)
    }
}

/// The moves that the search considers, in the order in which it
/// considers them: the empty cells within `MARGIN` of the stones' bounding
/// box, row by row and left to right within a row.
pub open spec fn candidates(cells: Seq<Seq<Color>>) -> Seq<(usize, usize)> {
    let b = stone_bounds(cells);
    area_candidates(
        cells,
        low_edge(b.min_x as int),
        high_edge(b.max_x as int, cells.len() as int),
        low_edge(b.min_y as int),
        high_edge(b.max_y as int, width(cells) as int),
    )
}

/// Lists the candidate moves of a position.
pub fn candidate_moves(game: &Game) -> (moves: Vec<(usize, usize)>)
    ensures
        moves@ == candidates(game@.cells),
{
    let ghost cells = game@.cells;
    let rows = grid_rows(&game.board);
    let cols = if rows == 0 {
        0
    } else {
        grid_cols(&game.board)
    };
    let b = bounding_box(&game.board);
    let x0 = if b.min_x >= MARGIN {
        b.min_x - MARGIN
    } else {
        0
    };
    let y0 = if b.min_y >= MARGIN {
        b.min_y - MARGIN
    } else {
        0
    };
    let x1 = if rows > MARGIN && b.max_x <= rows - MARGIN - 1 {
        b.max_x + MARGIN + 1
    } else {
        rows
    };
    let y1 = if cols > MARGIN && b.max_y <= cols - MARGIN - 1 {
        b.max_y + MARGIN + 1
    } else {
        cols
    };
    assert(x0 == low_edge(b.min_x as int));
    assert(y0 == low_edge(b.min_y as int));
    assert(x1 == high_edge(b.max_x as int, cells.len() as int));
    assert(y1 == high_edge(b.max_y as int, width(cells) as int));
    let mut moves: Vec<(usize, usize)> = Vec::new();
    let mut x = x0;
    while x < x1
        invariant
            cells == grid_cells(game.board),
            x0 <= x,
            x <= x1 || x == x0,
            moves@ == area_candidates(cells, x0 as int, x as int, y0 as int, y1 as int),
        decreases x1 - x,
    {
        let mut y = y0;
        while y < y1
            invariant
                cells == grid_cells(game.board),
                y0 <= y,
                y <= y1 || y == y0,
                moves@ == area_candidates(cells, x0 as int, x as int, y0 as int, y1 as int)
                    + row_candidates(cells, x as int, y0 as int, y as int),
            decreases y1 - y,
        {
            let ghost before = row_candidates(cells, x as int, y0 as int, y as int);
            let ghost area = area_candidates(cells, x0 as int, x as int, y0 as int, y1 as int);
            match grid_get(&game.board, x, y) {
                Some(Color::Empty) => {
                    moves.push((x, y));
                    assert((area + before).push((x, y)) =~= area + before.push((x, y)));
                },
                _ => {},
            }
            y = y + 1;
        }
        assert(row_candidates(cells, x as int, y0 as int, y as int) == row_candidates(
            cells,
            x as int,
            y0 as int,
            y1 as int,
        ));
        x = x + 1;
    }
    assert(area_candidates(cells, x0 as int, x as int, y0 as int, y1 as int) == area_candidates(
        cells,
        x0 as int,
        x1 as int,
        y0 as int,
        y1 as int,
    ));
    moves
}

/// Every cell that `row_candidates` lists is an empty cell of its row.
proof fn row_candidates_empty(cells: Seq<Seq<Color>>, x: int, y0: int, y1: int, i: int)
    requires
        measurable(cells),
        0 <= y0,
        0 <= i < row_candidates(cells, x, y0, y1).len(),
    ensures
        ({
            let c = row_candidates(cells, x, y0, y1)[i];
            c.0 == x && y0 <= c.1 < y1 && cell_at(cells, x, c.1 as int) == Some(Color::Empty)
        }),
    decreases y1 - y0,
{
    if y1 > y0 {
        let rest = row_candidates(cells, x, y0, y1 - 1);
        if i < rest.len() {
            row_candidates_empty(cells, x, y0, y1 - 1, i);
        }
    }
}

/// Every cell that `area_candidates` lists is an empty cell of the area.
proof fn area_candidates_empty(cells: Seq<Seq<Color>>, x0: int, x1: int, y0: int, y1: int, i: int)
    requires
        measurable(cells),
        0 <= x0,
        0 <= y0,
        0 <= i < area_candidates(cells, x0, x1, y0, y1).len(),
    ensures
        ({
            let c = area_candidates(cells, x0, x1, y0, y1)[i];
            x0 <= c.0 < x1 && y0 <= c.1 < y1 && cell_at(cells, c.0 as int, c.1 as int) == Some(
                Color::Empty,
            )
        }),
    decreases x1 - x0,
{
    if x1 > x0 {
        let above = area_candidates(cells, x0, x1 - 1, y0, y1);
        if i < above.len() {
            area_candidates_empty(cells, x0, x1 - 1, y0, y1, i);
        } else {
            row_candidates_empty(cells, x1 - 1, y0, y1, i - above.len());
        }
    }
}

/// Every candidate move is an empty cell of the board.
pub proof fn candidates_are_empty(cells: Seq<Seq<Color>>, i: int)
    requires
        measurable(cells),
        0 <= i < candidates(cells).len(),
    ensures
        cell_at(cells, candidates(cells)[i].0 as int, candidates(cells)[i].1 as int) == Some(
            Color::Empty,
        ),
{
    let b = stone_bounds(cells);
    area_candidates_empty(
        cells,
        low_edge(b.min_x as int),
        high_edge(b.max_x as int, cells.len() as int),
        low_edge(b.min_y as int),
        high_edge(b.max_y as int, width(cells) as int),
        i,
    );
}

/// `row_candidates` lists every empty cell of its stretch of the row.
proof fn row_candidates_complete(cells: Seq<Seq<Color>>, x: int, y0: int, y1: int, y: int)
    requires
        y0 <= y < y1,
        cell_at(cells, x, y) == Some(Color::Empty),
    ensures
        row_candidates(cells, x, y0, y1).contains((x as usize, y as usize)),
    decreases y1 - y0,
{
    let rest = row_candidates(cells, x, y0, y1 - 1);
    if y == y1 - 1 {
        assert(rest.push((x as usize, y as usize)).last() == (x as usize, y as usize));
    } else {
        row_candidates_complete(cells, x, y0, y1 - 1, y);
        let i = choose|i: int| 0 <= i < rest.len() && rest[i] == (x as usize, y as usize);
        if cell_at(cells, x, y1 - 1) == Some(Color::Empty) {
            assert(rest.push((x as usize, (y1 - 1) as usize))[i] == (x as usize, y as usize));
        }
    }
}

/// `area_candidates` lists every empty cell of its area.
proof fn area_candidates_complete(
    cells: Seq<Seq<Color>>,
    x0: int,
    x1: int,
    y0: int,
    y1: int,
    x: int,
    y: int,
)
    requires
        x0 <= x < x1,
        y0 <= y < y1,
        cell_at(cells, x, y) == Some(Color::Empty),
    ensures
        area_candidates(cells, x0, x1, y0, y1).contains((x as usize, y as usize)),
    decreases x1 - x0,
{
    let above = area_candidates(cells, x0, x1 - 1, y0, y1);
    let row = row_candidates(cells, x1 - 1, y0, y1);
    if x == x1 - 1 {
        row_candidates_complete(cells, x, y0, y1, y);
        let i = choose|i: int| 0 <= i < row.len() && row[i] == (x as usize, y as usize);
        assert((above + row)[above.len() + i] == (x as usize, y as usize));
    } else {
        area_candidates_complete(cells, x0, x1 - 1, y0, y1, x, y);
        let i = choose|i: int| 0 <= i < above.len() && above[i] == (x as usize, y as usize);
        assert((above + row)[i] == (x as usize, y as usize));
    }
}

/// The coordinate lies within `MARGIN` of the stones' bounding box.
pub open spec fn near_stones(cells: Seq<Seq<Color>>, x: int, y: int) -> bool {
    let b = stone_bounds(cells);
    &&& low_edge(b.min_x as int) <= x < high_edge(b.max_x as int, cells.len() as int)
    &&& low_edge(b.min_y as int) <= y < high_edge(b.max_y as int, width(cells) as int)
}

/// The candidates are exactly the empty cells near the stones.
pub proof fn candidates_are_the_empty_cells_near(cells: Seq<Seq<Color>>, pos: (usize, usize))
    requires
        measurable(cells),
    ensures
        candidates(cells).contains(pos) <==> near_stones(cells, pos.0 as int, pos.1 as int)
            && cell_at(cells, pos.0 as int, pos.1 as int) == Some(Color::Empty),
{
    let b = stone_bounds(cells);
    let x0 = low_edge(b.min_x as int);
    let x1 = high_edge(b.max_x as int, cells.len() as int);
    let y0 = low_edge(b.min_y as int);
    let y1 = high_edge(b.max_y as int, width(cells) as int);
    if candidates(cells).contains(pos) {
        let i = choose|i: int| 0 <= i < candidates(cells).len() && candidates(cells)[i] == pos;
        area_candidates_empty(cells, x0, x1, y0, y1, i);
    }
    if near_stones(cells, pos.0 as int, pos.1 as int) && cell_at(cells, pos.0 as int, pos.1 as int)
        == Some(Color::Empty) {
        area_candidates_complete(cells, x0, x1, y0, y1, pos.0 as int, pos.1 as int);
    }
}

} // verus!
