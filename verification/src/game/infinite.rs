//! The unbounded board: a sparse store of cells at signed coordinates,
//! with the rectangle that spans every coordinate written so far.

use std::collections::HashMap;
use vstd::prelude::*;
use vstd::std_specs::hash::spec_hash_map_iter;
use vstd::std_specs::iter::IteratorSpec;
use super::color::Color;

verus! {

broadcast use vstd::std_specs::hash::group_hash_axioms;

/// One position of the unbounded board as read.
#[derive(Clone, Copy, Debug, PartialEq, Eq, Structural)]
pub struct Cell {
    pub color: Color,
    pub x: isize,
    pub y: isize,
}

impl Default for Cell {
    fn default() -> (r: Cell)
        ensures
            r == (Cell { color: Color::Empty, x: 0, y: 0 }),
    {
        Cell { color: Color::Empty, x: 0, y: 0 }
    }
}

/// Half the span of a coordinate: added to one, it makes it non-negative.
const HALF: i128 = 0x8000_0000_0000_0000;

/// The span of a coordinate: the number of values it can take.
const SPAN: u128 = 0x1_0000_0000_0000_0000;

/// The key under which the cell at `(x, y)` is stored: the two coordinates,
/// shifted to be non-negative, side by side.
pub closed spec fn key_of(x: int, y: int) -> u128 {
    ((x + HALF) * SPAN + (y + HALF)) as u128
}

/// Distinct coordinates have distinct keys.
proof fn key_of_distinct(x: isize, y: isize, u: isize, v: isize)
    requires
        key_of(x as int, y as int) == key_of(u as int, v as int),
    ensures
        x == u,
        y == v,
{
    let a = x + HALF;
    let b = y + HALF;
    let c = u + HALF;
    let d = v + HALF;
    assert(0 <= a < SPAN && 0 <= b < SPAN && 0 <= c < SPAN && 0 <= d < SPAN);
    assert(a * SPAN + b == c * SPAN + d);
}

/// The coordinate stored under a key, where the key is one of a coordinate.
fn coordinate(k: u128) -> (pos: Option<(isize, isize)>)
    ensures
        pos matches Some(p) ==> key_of(p.0 as int, p.1 as int) == k,
        forall|x: isize, y: isize| #[trigger] key_of(x as int, y as int) == k ==> pos == Some((x, y)),
{
    let x: i128 = (k / SPAN) as i128 - HALF;
    let y: i128 = (k % SPAN) as i128 - HALF;
    if isize::MIN as i128 <= x && x <= isize::MAX as i128 && isize::MIN as i128 <= y && y
        <= isize::MAX as i128 {
        Some((x as isize, y as isize))
    } else {
        None
    }
}

/// The key of a coordinate.
fn key(pos: &(isize, isize)) -> (k: u128)
    ensures
        k == key_of(pos.0 as int, pos.1 as int),
{
    let a: u128 = (pos.0 as i128 + HALF) as u128;
    let b: u128 = (pos.1 as i128 + HALF) as u128;
    a * SPAN + b
}

/// The stored cells of a board, by coordinate. Each cell is kept under a
/// single integer made of its two coordinates, because the hash map's
/// contracts are stated for integer keys and not for pairs.
#[derive(Debug)]
pub struct Cells {
    map: HashMap<u128, Color>,
}

impl View for Cells {
    type V = Map<(isize, isize), Color>;

    closed spec fn view(&self) -> Map<(isize, isize), Color> {
        Map::new(
            |p: (isize, isize)| self.map@.contains_key(key_of(p.0 as int, p.1 as int)),
            |p: (isize, isize)| self.map@[key_of(p.0 as int, p.1 as int)],
        )
    }
}

impl Clone for Cells {
    fn clone(&self) -> (copy: Cells)
        ensures
            copy@ == self@,
    {
        let copy = Cells { map: self.map.clone() };
        assert(copy@ =~= self@);
        copy
    }
}

impl Cells {
    /// No cell is stored.
    pub fn new() -> (cells: Cells)
        ensures
            cells@ == Map::<(isize, isize), Color>::empty(),
    {
        let cells = Cells { map: HashMap::new() };
        assert(cells@ =~= Map::<(isize, isize), Color>::empty());
        cells
    }

    /// The colour stored at a coordinate, if one is.
    pub fn get(&self, pos: &(isize, isize)) -> (c: Option<Color>)
        ensures
            c == if self@.contains_key(*pos) {
                Some(self@[*pos])
            } else {
                None
            },
    {
        match self.map.get(&key(pos)) {
            Some(c) => Some(*c),
            None => None,
        }
    }

    /// Stores a colour at a coordinate, in place of what was there.
    pub fn insert(&mut self, pos: (isize, isize), color: Color)
        ensures
            final(self)@ == old(self)@.insert(pos, color),
    {
        self.map.insert(key(&pos), color);
        proof {
            assert forall|p: (isize, isize)| #[trigger]
                key_of(p.0 as int, p.1 as int) == key_of(pos.0 as int, pos.1 as int) implies p
                == pos by {
                key_of_distinct(p.0, p.1, pos.0, pos.1);
            }
            assert(self@ =~= old(self)@.insert(pos, color));
        }
    }

    /// The stored cells that hold a stone, each once, in no particular order.
    pub fn stones(&self) -> (out: Vec<Cell>)
        ensures
            out@.no_duplicates(),
            forall|cell: Cell| #[trigger]
                out@.contains(cell) <==> cell.color != Color::Empty && self@.contains_pair(
                    (cell.x, cell.y),
                    cell.color,
                ),
    {
        let mut out: Vec<Cell> = Vec::new();
        let ghost items = spec_hash_map_iter(&self.map).remaining();
        let ghost mut from: Seq<int> = Seq::empty();
        let ghost mut done: int = 0;
        for item in it: self.map.iter()
            invariant
                it.seq() == items,
                done == it.index(),
                items.len() == self.map@.dom().len(),
                forall|i: int|
                    0 <= i < items.len() ==> self.map@.contains_key(*(#[trigger] items[i]).0)
                        && self.map@[*items[i].0] == *items[i].1,
                forall|k: u128| #[trigger]
                    self.map@.contains_key(k) ==> items.contains((&k, &self.map@[k])),
                items.no_duplicates(),
                from.len() == out.len(),
                forall|j: int|
                    0 <= j < out.len() ==> {
                        &&& 0 <= #[trigger] from[j] < done
                        &&& *items[from[j]].0 == key_of(out[j].x as int, out[j].y as int)
                        &&& *items[from[j]].1 == out[j].color
                        &&& out[j].color != Color::Empty
                    },
                forall|i: int, j: int| 0 <= i < j < out.len() ==> from[i] < from[j],
                forall|i: int, x: isize, y: isize|
                    0 <= i < done && *(#[trigger] items[i]).0 == #[trigger] key_of(
                        x as int,
                        y as int,
                    ) && *items[i].1 != Color::Empty ==> out@.contains(
                        Cell { color: *items[i].1, x, y },
                    ),
        {
            let (k, c) = item;
            let ghost before = out@;
            if *c != Color::Empty {
                match coordinate(*k) {
                    Some(pos) => {
                        let cell = Cell { color: *c, x: pos.0, y: pos.1 };
                        out.push(cell);
                        proof {
                            from = from.push(done);
                            assert(out@[out.len() - 1] == cell);
                        }
                    },
                    None => {},
                }
            }
            proof {
                assert forall|d: Cell| before.contains(d) implies out@.contains(d) by {
                    let j = choose|j: int| 0 <= j < before.len() && before[j] == d;
                    assert(out@[j] == d);
                }
                done = done + 1;
            }
        }
        proof {
            assert(done == items.len());
            assert forall|i: int, j: int| 0 <= i < j < out.len() implies out@[i] != out@[j] by {
                assert(from[i] < from[j]);
                if out@[i] == out@[j] {
                    assert(items[from[i]] == items[from[j]]);
                }
            }
            assert forall|cell: Cell| #[trigger]
                out@.contains(cell) <==> cell.color != Color::Empty && self@.contains_pair(
                    (cell.x, cell.y),
                    cell.color,
                ) by {
                let k = key_of(cell.x as int, cell.y as int);
                if out@.contains(cell) {
                    let j = choose|j: int| 0 <= j < out.len() && out@[j] == cell;
                    assert(0 <= from[j] < items.len());
                }
                if cell.color != Color::Empty && self@.contains_pair((cell.x, cell.y), cell.color) {
                    assert(self.map@.contains_key(k));
                    let i = choose|i: int| 0 <= i < items.len() && items[i] == (&k, &self.map@[k]);
                    assert(*items[i].0 == key_of(cell.x as int, cell.y as int));
                }
            }
        }
        out
    }

    /// Forgets what is stored at a coordinate.
    pub fn remove(&mut self, pos: (isize, isize))
        ensures
            final(self)@ == old(self)@.remove(pos),
    {
        self.map.remove(&key(&pos));
        proof {
            assert forall|p: (isize, isize)| #[trigger]
                key_of(p.0 as int, p.1 as int) == key_of(pos.0 as int, pos.1 as int) implies p
                == pos by {
                key_of_distinct(p.0, p.1, pos.0, pos.1);
            }
            assert(self@ =~= old(self)@.remove(pos));
        }
    }
}

/// A sparse board without bounds. A coordinate that was never set, or was
/// removed, is empty. The four bounds span every coordinate set since the
/// board was made; removing a cell leaves them as they are, and `written`
/// tells whether a cell was ever set.
#[derive(Debug)]
pub struct Board {
    pub cells: Cells,
    pub written: bool,
    pub max_x: isize,
    pub min_x: isize,
    pub max_y: isize,
    pub min_y: isize,
}

impl View for Board {
    type V = Map<(isize, isize), Color>;

    /// The cells that are stored, by coordinate.
    open spec fn view(&self) -> Map<(isize, isize), Color> {
        self.cells@
    }
}

impl Clone for Board {
    /// A board of its own with the same cells and the same bounds: the
    /// snapshot to go back to after writes that are to be undone.
    fn clone(&self) -> (copy: Board)
        ensures
            copy@ == self@,
            copy.written == self.written,
            copy.max_x == self.max_x && copy.min_x == self.min_x,
            copy.max_y == self.max_y && copy.min_y == self.min_y,
    {
        Board {
            cells: self.cells.clone(),
            written: self.written,
            max_x: self.max_x,
            min_x: self.min_x,
            max_y: self.max_y,
            min_y: self.min_y,
        }
    }
}

impl Board {
    /// The colour at a coordinate: empty unless a colour is stored there.
    pub open spec fn color_at(&self, pos: (isize, isize)) -> Color {
        if self@.contains_key(pos) {
            self@[pos]
        } else {
            Color::Empty
        }
    }

    /// The bounds hold the coordinate.
    pub open spec fn spans(&self, pos: (isize, isize)) -> bool {
        self.min_x <= pos.0 <= self.max_x && self.min_y <= pos.1 <= self.max_y
    }

    /// The bounds hold every stored cell, and a board that was never
    /// written stores none.
    pub open spec fn bounded(&self) -> bool {
        &&& forall|p: (isize, isize)| self@.contains_key(p) ==> self.spans(p)
        &&& !self.written ==> forall|p: (isize, isize)| !self@.contains_key(p)
    }

    /// A board without cells, its bounds at the origin.
    pub fn new() -> (b: Board)
        ensures
            b@ == Map::<(isize, isize), Color>::empty(),
            !b.written,
            b.max_x == 0 && b.min_x == 0 && b.max_y == 0 && b.min_y == 0,
            b.bounded(),
    {
        Board { cells: Cells::new(), written: false, max_x: 0, min_x: 0, max_y: 0, min_y: 0 }
    }

    /// The colour at a coordinate, `Color::Empty` if none is stored.
    pub fn get(&self, pos: &(isize, isize)) -> (c: Color)
        ensures
            c == self.color_at(*pos),
    {
        match self.cells.get(pos) {
            Some(c) => c,
            None => Color::Empty,
        }
    }

    /// The cell at a coordinate: its colour and where it is.
    pub fn get_cell(&self, pos: &(isize, isize)) -> (cell: Cell)
        ensures
            cell == (Cell { color: self.color_at(*pos), x: pos.0, y: pos.1 }),
    {
        Cell { color: self.get(pos), x: pos.0, y: pos.1 }
    }

    /// Stores a colour at a coordinate. The first write of a board puts all
    /// four bounds on the coordinate; every later one widens them to hold it.
    pub fn set(&mut self, pos: (isize, isize), color: Color)
        ensures
            final(self)@ == old(self)@.insert(pos, color),
            final(self).written,
            final(self).spans(pos),
            old(self).bounded() ==> final(self).bounded(),
            forall|p: (isize, isize)| old(self).written && old(self).spans(p) ==> final(self).spans(p),
            !old(self).written ==> final(self).min_x == pos.0 && final(self).max_x == pos.0
                && final(self).min_y == pos.1 && final(self).max_y == pos.1,
            old(self).written ==> {
                &&& final(self).min_x == if pos.0 < old(self).min_x { pos.0 } else { old(self).min_x }
                &&& final(self).max_x == if pos.0 > old(self).max_x { pos.0 } else { old(self).max_x }
                &&& final(self).min_y == if pos.1 < old(self).min_y { pos.1 } else { old(self).min_y }
                &&& final(self).max_y == if pos.1 > old(self).max_y { pos.1 } else { old(self).max_y }
            },
    {
        if !self.written {
            self.max_x = pos.0;
            self.min_x = pos.0;
            self.max_y = pos.1;
            self.min_y = pos.1;
            self.written = true;
        } else {
            if pos.0 > self.max_x {
                self.max_x = pos.0;
            }
            if pos.0 < self.min_x {
                self.min_x = pos.0;
            }
            if pos.1 > self.max_y {
                self.max_y = pos.1;
            }
            if pos.1 < self.min_y {
                self.min_y = pos.1;
            }
        }
        self.cells.insert(pos, color);
        proof {
            if old(self).bounded() {
                assert forall|p: (isize, isize)| self@.contains_key(p) implies self.spans(p) by {
                    if p != pos {
                        assert(old(self)@.contains_key(p));
                        assert(old(self).spans(p));
                    }
                }
            }
        }
    }

    /// The cells that hold a stone, each once, in no particular order.
    pub fn iter_cells(&self) -> (out: Vec<Cell>)
        ensures
            out@.no_duplicates(),
            forall|cell: Cell| #[trigger]
                out@.contains(cell) <==> cell.color != Color::Empty && self.color_at(
                    (cell.x, cell.y),
                ) == cell.color,
    {
        let out = self.cells.stones();
        assert forall|cell: Cell| #[trigger]
            out@.contains(cell) <==> cell.color != Color::Empty && self.color_at((cell.x, cell.y))
                == cell.color by {
            assert(out@.contains(cell) <==> cell.color != Color::Empty && self@.contains_pair(
                (cell.x, cell.y),
                cell.color,
            ));
        }
        out
    }

    /// Empties a coordinate. The bounds stay as they are.
    pub fn remove(&mut self, pos: (isize, isize))
        ensures
            final(self)@ == old(self)@.remove(pos),
            final(self).written == old(self).written,
            final(self).max_x == old(self).max_x && final(self).min_x == old(self).min_x,
            final(self).max_y == old(self).max_y && final(self).min_y == old(self).min_y,
            old(self).bounded() ==> final(self).bounded(),
    {
        self.cells.remove(pos);
        proof {
            if old(self).bounded() {
                assert forall|p: (isize, isize)| self@.contains_key(p) implies self.spans(p) by {
                    assert(old(self)@.contains_key(p));
                    assert(old(self).spans(p));
                }
                assert forall|p: (isize, isize)| !self.written implies !self@.contains_key(p) by {
                    assert(!old(self)@.contains_key(p));
                }
            }
        }
    }
}

} // verus!
