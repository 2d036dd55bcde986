use gomoku::game::infinite::{Board, Cell};
use gomoku::game::Color;

fn bounds(board: &Board) -> (isize, isize, isize, isize) {
    (board.min_x, board.max_x, board.min_y, board.max_y)
}

#[test]
fn new_board_is_empty_at_the_origin() {
    let board = Board::new();
    assert_eq!(bounds(&board), (0, 0, 0, 0));
    assert!(!board.written);
    assert_eq!(board.get(&(0, 0)), Color::Empty);
    assert_eq!(board.get(&(-7, 12)), Color::Empty);
    assert!(board.iter_cells().is_empty());
}

#[test]
fn first_write_puts_the_bounds_on_the_cell() {
    let mut board = Board::new();
    board.set((5, -3), Color::White);
    assert_eq!(bounds(&board), (5, 5, -3, -3));
    assert_eq!(board.get(&(5, -3)), Color::White);
    assert_eq!(board.get(&(-3, 5)), Color::Empty);
    assert!(board.written);
}

#[test]
fn later_writes_widen_the_bounds() {
    let mut board = Board::new();
    board.set((5, -3), Color::White);
    board.set((2, 4), Color::Black);
    assert_eq!(bounds(&board), (2, 5, -3, 4));
    board.set((3, 0), Color::White);
    assert_eq!(bounds(&board), (2, 5, -3, 4));
    board.set((-10, 9), Color::Black);
    assert_eq!(bounds(&board), (-10, 5, -3, 9));
}

#[test]
fn remove_empties_the_cell_and_keeps_the_bounds() {
    let mut board = Board::new();
    board.set((1, 1), Color::White);
    board.set((8, 8), Color::Black);
    board.remove((8, 8));
    assert_eq!(board.get(&(8, 8)), Color::Empty);
    assert_eq!(board.get(&(1, 1)), Color::White);
    assert_eq!(bounds(&board), (1, 8, 1, 8));
    board.remove((1, 1));
    board.remove((4, 4));
    assert_eq!(bounds(&board), (1, 8, 1, 8));
    board.set((3, 3), Color::White);
    assert_eq!(bounds(&board), (1, 8, 1, 8));
}

#[test]
fn set_overwrites() {
    let mut board = Board::new();
    board.set((0, 0), Color::White);
    board.set((0, 0), Color::Black);
    assert_eq!(board.get(&(0, 0)), Color::Black);
    assert_eq!(board.iter_cells(), vec![Cell { color: Color::Black, x: 0, y: 0 }]);
}

#[test]
fn get_cell_carries_the_coordinate() {
    let mut board = Board::new();
    board.set((-2, 7), Color::Black);
    assert_eq!(board.get_cell(&(-2, 7)), Cell { color: Color::Black, x: -2, y: 7 });
    assert_eq!(board.get_cell(&(7, -2)), Cell { color: Color::Empty, x: 7, y: -2 });
}

#[test]
fn iter_cells_lists_every_stone_once() {
    let mut board = Board::new();
    board.set((0, 0), Color::White);
    board.set((-1, 1), Color::Black);
    board.set((isize::MAX, isize::MIN), Color::White);
    board.set((isize::MIN, isize::MAX), Color::Black);
    board.set((3, 3), Color::Empty);
    board.set((4, 4), Color::White);
    board.remove((4, 4));
    let mut cells = board.iter_cells();
    cells.sort_by_key(|c| (c.x, c.y));
    assert_eq!(
        cells,
        vec![
            Cell { color: Color::Black, x: isize::MIN, y: isize::MAX },
            Cell { color: Color::Black, x: -1, y: 1 },
            Cell { color: Color::White, x: 0, y: 0 },
            Cell { color: Color::White, x: isize::MAX, y: isize::MIN },
        ]
    );
    assert_eq!(board.iter_cells().len(), 4);
}

#[test]
fn neighbouring_coordinates_do_not_collide() {
    let mut board = Board::new();
    board.set((0, -1), Color::White);
    board.set((-1, 0), Color::Black);
    board.set((0, isize::MAX), Color::Black);
    board.set((1, isize::MIN), Color::White);
    assert_eq!(board.get(&(0, -1)), Color::White);
    assert_eq!(board.get(&(-1, 0)), Color::Black);
    assert_eq!(board.get(&(0, isize::MAX)), Color::Black);
    assert_eq!(board.get(&(1, isize::MIN)), Color::White);
    assert_eq!(board.get(&(-1, -1)), Color::Empty);
    assert_eq!(board.get(&(0, 0)), Color::Empty);
}

#[test]
fn undo_with_a_bounds_snapshot_restores_the_board() {
    let mut board = Board::new();
    board.set((0, 0), Color::White);
    board.set((1, 1), Color::Black);
    let snapshot = bounds(&board);
    board.set((6, -6), Color::White);
    assert_eq!(bounds(&board), (0, 6, -6, 1));
    board.remove((6, -6));
    (board.min_x, board.max_x, board.min_y, board.max_y) = snapshot;
    assert_eq!(bounds(&board), (0, 1, 0, 1));
    assert_eq!(board.iter_cells().len(), 2);
}

#[test]
fn default_cell_is_empty_at_the_origin() {
    assert_eq!(Cell::default(), Cell { color: Color::Empty, x: 0, y: 0 });
}

#[test]
fn clone_is_a_board_of_its_own() {
    let mut board = Board::new();
    board.set((2, -2), Color::White);
    board.set((5, 9), Color::Black);
    let snapshot = board.clone();
    board.set((-40, 40), Color::White);
    board.remove((2, -2));
    assert_eq!(bounds(&snapshot), (2, 5, -2, 9));
    assert!(snapshot.written);
    assert_eq!(snapshot.get(&(2, -2)), Color::White);
    assert_eq!(snapshot.get(&(5, 9)), Color::Black);
    assert_eq!(snapshot.get(&(-40, 40)), Color::Empty);
    assert_eq!(snapshot.iter_cells().len(), 2);
    assert_eq!(bounds(&board), (-40, 5, -2, 40));
    let fresh = Board::new().clone();
    assert!(!fresh.written);
    assert!(fresh.iter_cells().is_empty());
}
