use gomoku::ai::policy::{encode, play_ranked};
use gomoku::game::{Color, Game, GameError};
use grid::Grid;

#[test]
fn encode_reads_the_board_for_the_player_to_move() {
    let mut game = Game::new();
    assert_eq!(encode(&game), vec![0i8; 25]);
    assert_eq!(game.play((0, 1)), Ok(Color::Empty));
    assert_eq!(game.play((2, 3)), Ok(Color::Empty));
    let mut expected = vec![0i8; 25];
    expected[1] = 1;
    expected[13] = -1;
    assert_eq!(encode(&game), expected);
    assert_eq!(game.play((4, 4)), Ok(Color::Empty));
    let mut expected = vec![0i8; 25];
    expected[1] = -1;
    expected[13] = 1;
    expected[24] = -1;
    assert_eq!(encode(&game), expected);
}

#[test]
fn encode_counts_row_after_row() {
    let mut board = Grid::new(2, 3);
    board[(0, 2)] = Color::White;
    board[(1, 0)] = Color::Black;
    let game = Game { board, turn: Color::Black, last_move: None };
    assert_eq!(encode(&game), vec![0, 0, -1, 1, 0, 0]);
}

#[test]
fn play_ranked_plays_the_first_legal_cell() {
    let mut game = Game::new();
    assert_eq!(game.play((0, 0)), Ok(Color::Empty));
    assert_eq!(game.play((1, 2)), Ok(Color::Empty));
    assert_eq!(play_ranked(&mut game, &[0, 7, 99, 8, 3]), Ok(Color::Empty));
    assert_eq!(game.last_move, Some((1, 3)));
    assert_eq!(game.board.get(1, 3), Some(&Color::White));
    assert_eq!(game.board.get(0, 3), Some(&Color::Empty));
    assert_eq!(game.turn, Color::Black);
}

#[test]
fn play_ranked_reports_a_win() {
    let mut game = Game::new();
    let moves = [(0, 0), (1, 0), (0, 1), (1, 1), (0, 2), (1, 2), (0, 3), (1, 3)];
    assert_eq!(game.play_moves(&moves), Ok(Color::Empty));
    assert_eq!(play_ranked(&mut game, &[3, 4, 5]), Ok(Color::White));
    assert_eq!(game.last_move, Some((0, 4)));
    assert_eq!(game.turn, Color::Empty);
}

#[test]
fn play_ranked_without_a_legal_cell_plays_nothing() {
    let mut game = Game::new();
    assert_eq!(game.play((0, 0)), Ok(Color::Empty));
    let before = game.clone();
    assert_eq!(play_ranked(&mut game, &[0, 25, 1000]), Err(GameError::IllegalMove));
    assert_eq!(play_ranked(&mut game, &[]), Err(GameError::IllegalMove));
    assert_eq!(game.board, before.board);
    assert_eq!(game.turn, before.turn);
    assert_eq!(game.last_move, before.last_move);
}

#[test]
fn play_ranked_on_a_finished_game_is_refused() {
    let mut game = Game::new();
    let moves = [(0, 0), (0, 1), (1, 0), (1, 1), (2, 0), (2, 1), (3, 0), (3, 1), (4, 0)];
    assert_eq!(game.play_moves(&moves), Ok(Color::White));
    assert_eq!(play_ranked(&mut game, &[24, 23]), Err(GameError::GameOver));
    assert_eq!(game.board.get(4, 4), Some(&Color::Empty));
}

#[test]
fn play_ranked_on_a_board_without_cells_is_illegal() {
    let mut game = Game { board: Grid::new(0, 0), turn: Color::White, last_move: None };
    assert_eq!(play_ranked(&mut game, &[0, 1]), Err(GameError::IllegalMove));
}
