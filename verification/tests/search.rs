use gomoku::ai::candidates::{bounding_box, candidate_moves, Bounds};
use gomoku::ai::evaluate::is_measurable;
use gomoku::ai::search::{best_move, look_ahead};
use gomoku::ai::{evaluate, AI, SEARCH_DEPTH};
use gomoku::game::{Color, Game, GameError};
use grid::Grid;

fn board_of(rows: &[&str]) -> Grid<Color> {
    let mut grid = Grid::new(rows.len(), rows[0].len());
    for (x, row) in rows.iter().enumerate() {
        for (y, ch) in row.chars().enumerate() {
            grid[(x, y)] = match ch {
                'W' => Color::White,
                'B' => Color::Black,
                _ => Color::Empty,
            };
        }
    }
    grid
}

fn game_of(rows: &[&str], turn: Color) -> Game {
    Game { board: board_of(rows), turn, last_move: None }
}

fn same(a: &Game, b: &Game) -> bool {
    a.board == b.board && a.turn == b.turn && a.last_move == b.last_move
}

#[test]
fn empty_board_scores_zero_for_every_colour() {
    let game = Game::new();
    assert_eq!(evaluate(&game, Color::White), 0);
    assert_eq!(evaluate(&game, Color::Black), 0);
    assert_eq!(evaluate(&game, Color::Empty), 0);
}

#[test]
fn open_four_scores_higher_than_blocked_four() {
    let open = game_of(&[".WWWW."], Color::White);
    let blocked = game_of(&["BWWWWB"], Color::White);
    assert_eq!(evaluate(&open, Color::White), 20);
    assert_eq!(evaluate(&blocked, Color::White), 16);
    assert!(evaluate(&open, Color::White) > evaluate(&blocked, Color::White));
}

#[test]
fn runs_count_their_squared_length() {
    let game = game_of(&["WW...", ".....", ".....", ".....", "....."], Color::White);
    assert_eq!(evaluate(&game, Color::White), 4 + 1 + 1);
    assert_eq!(evaluate(&game, Color::Black), -6);
    let game = game_of(&["WWW.B", "W...B", "....B", ".....", "....."], Color::White);
    let rows = (9 - 1) + (1 - 1) + (-1);
    let cols = 4 + 1 + 1 + 0 + (-9);
    assert_eq!(evaluate(&game, Color::White), rows + cols);
    assert_eq!(evaluate(&game, Color::Black), -(rows + cols));
}

#[test]
fn a_run_that_ends_at_the_edge_is_counted() {
    let game = game_of(&["...WW"], Color::White);
    assert_eq!(evaluate(&game, Color::White), 4 + 2);
    let game = game_of(&["WWWWW"], Color::White);
    assert_eq!(evaluate(&game, Color::White), 25 + 5);
    let game = game_of(&["W", "W", "B"], Color::Black);
    assert_eq!(evaluate(&game, Color::Black), (-1 - 1 + 1) + (-4 + 1));
}

#[test]
fn one_long_run_beats_two_short_ones() {
    let long = game_of(&["WWWW...."], Color::White);
    let split = game_of(&["WW..WW.."], Color::White);
    assert_eq!(evaluate(&long, Color::White), 16 + 4);
    assert_eq!(evaluate(&split, Color::White), 4 + 4 + 4);
}

#[test]
fn for_no_player_every_stone_counts_against() {
    let game = game_of(&["WB"], Color::White);
    assert_eq!(evaluate(&game, Color::Empty), -4);
}

#[test]
fn a_board_without_cells_scores_zero() {
    let game = Game { board: Grid::new(0, 0), turn: Color::White, last_move: None };
    assert!(is_measurable(&game));
    assert_eq!(evaluate(&game, Color::White), 0);
    assert_eq!(candidate_moves(&game), vec![]);
    let mut game = game;
    assert_eq!(best_move(&mut game, 2), None);
}

#[test]
fn small_boards_are_measurable() {
    assert!(is_measurable(&Game::new()));
    assert!(is_measurable(&game_of(&["W"], Color::White)));
}

#[test]
fn bounding_box_of_a_bare_board_is_the_origin() {
    let game = Game::new();
    assert_eq!(bounding_box(&game.board), Bounds { min_x: 0, max_x: 0, min_y: 0, max_y: 0 });
}

#[test]
fn bounding_box_spans_the_stones() {
    let game = game_of(&[".....", "...W.", ".B...", ".....", "....."], Color::White);
    assert_eq!(bounding_box(&game.board), Bounds { min_x: 1, max_x: 2, min_y: 1, max_y: 3 });
    let game = game_of(&[".....", ".....", ".....", ".....", "....B"], Color::White);
    assert_eq!(bounding_box(&game.board), Bounds { min_x: 4, max_x: 4, min_y: 4, max_y: 4 });
}

#[test]
fn candidates_of_a_bare_board_lie_near_the_origin() {
    let game = Game::new();
    assert_eq!(
        candidate_moves(&game),
        vec![(0, 0), (0, 1), (0, 2), (1, 0), (1, 1), (1, 2), (2, 0), (2, 1), (2, 2)]
    );
}

#[test]
fn candidates_are_the_empty_cells_within_the_margin() {
    let rows = [
        "........",
        "........",
        "........",
        "...WB...",
        "........",
        "........",
        "........",
        "........",
    ];
    let game = game_of(&rows, Color::White);
    let mut expected = Vec::new();
    for x in 1..6 {
        for y in 1..7 {
            if (x, y) != (3, 3) && (x, y) != (3, 4) {
                expected.push((x, y));
            }
        }
    }
    assert_eq!(candidate_moves(&game), expected);
}

#[test]
fn candidates_stop_at_the_edge() {
    let game = game_of(&["W...", "....", "....", "...."], Color::Black);
    assert_eq!(
        candidate_moves(&game),
        vec![(0, 1), (0, 2), (1, 0), (1, 1), (1, 2), (2, 0), (2, 1), (2, 2)]
    );
    let game = game_of(&["....", "....", "....", "...B"], Color::White);
    assert_eq!(
        candidate_moves(&game),
        vec![(1, 1), (1, 2), (1, 3), (2, 1), (2, 2), (2, 3), (3, 1), (3, 2)]
    );
}

#[test]
fn search_takes_the_winning_move() {
    let mut game = game_of(&["WWWW.", "BBBB.", ".....", ".....", "....."], Color::White);
    let before = game.clone();
    let ai = AI::new(Color::White);
    assert_eq!(ai.get_best_move(&mut game, 0), Some((0, 4)));
    assert_eq!(ai.get_best_move(&mut game, 1), Some((0, 4)));
    assert_eq!(ai.get_best_move(&mut game, 2), Some((0, 4)));
    assert!(same(&game, &before));
}

#[test]
fn the_first_winning_move_is_taken() {
    let mut game = game_of(&[".WWWW.", "BBB...", "......"], Color::White);
    assert_eq!(best_move(&mut game, 0), Some((0, 0)));
    assert_eq!(best_move(&mut game, 1), Some((0, 0)));
}

#[test]
fn ties_go_to_the_first_candidate() {
    let mut game = Game::new();
    assert_eq!(best_move(&mut game, 0), Some((0, 0)));
    let mut game = game_of(&[".....", ".....", "..W..", ".....", "....."], Color::Black);
    assert_eq!(best_move(&mut game, 0), Some((0, 0)));
}

#[test]
fn without_look_ahead_the_best_score_is_taken() {
    let mut game = game_of(&["WW...", ".....", ".....", ".....", "....."], Color::White);
    assert_eq!(best_move(&mut game, 0), Some((0, 2)));
    let mut game = game_of(&["W....", "W....", "B....", ".....", "....."], Color::White);
    assert_eq!(best_move(&mut game, 0), Some((0, 1)));
}

#[test]
fn search_leaves_the_game_as_it_was() {
    let mut game = Game::new();
    assert_eq!(game.play_moves(&[(2, 2), (1, 1), (2, 3)]), Ok(Color::Empty));
    let before = game.clone();
    for depth in 0..3 {
        let choice = best_move(&mut game, depth);
        assert!(same(&game, &before));
        let p = choice.unwrap();
        assert_eq!(game.board.get(p.0, p.1), Some(&Color::Empty));
        assert_eq!(best_move(&mut game, depth), choice);
    }
    assert_eq!(game.last_move, Some((2, 3)));
}

#[test]
fn look_ahead_without_plies_is_the_evaluation() {
    let mut game = game_of(&["WW...", ".B...", ".....", ".....", "....."], Color::Black);
    let before = game.clone();
    assert_eq!(look_ahead(&mut game, 0, Color::White), evaluate(&before, Color::White));
    assert!(same(&game, &before));
}

#[test]
fn look_ahead_plays_each_side_s_choice_and_takes_it_back() {
    let mut game = game_of(&["WW...", ".....", ".....", ".....", "....."], Color::White);
    game.last_move = Some((0, 1));
    let before = game.clone();
    let score = look_ahead(&mut game, 1, Color::White);
    assert!(same(&game, &before));
    let mut played = before.clone();
    played.play_no_win_check((0, 2));
    assert_eq!(score, evaluate(&played, Color::White));
    assert_eq!(score, 12);
}

#[test]
fn look_ahead_stops_on_a_full_board() {
    let mut game = game_of(&["WB", "BW"], Color::White);
    let before = game.clone();
    assert_eq!(look_ahead(&mut game, 3, Color::White), evaluate(&before, Color::White));
    assert!(same(&game, &before));
}

#[test]
fn no_move_on_a_full_board() {
    let mut game = game_of(&["WBW", "BWB", "BWB"], Color::White);
    let before = game.clone();
    let ai = AI::new(Color::White);
    assert_eq!(ai.get_best_move(&mut game, 2), None);
    assert_eq!(ai.play_move(&mut game), Err(GameError::IllegalMove));
    assert!(same(&game, &before));
}

#[test]
fn no_move_once_the_game_is_over() {
    let mut game = Game::new();
    let moves = [(0, 0), (0, 1), (1, 0), (1, 1), (2, 0), (2, 1), (3, 0), (3, 1), (4, 0)];
    assert_eq!(game.play_moves(&moves), Ok(Color::White));
    let before = game.clone();
    assert_eq!(best_move(&mut game, 0), None);
    assert_eq!(best_move(&mut game, 1), None);
    assert!(same(&game, &before));
}

#[test]
fn a_long_narrow_board_is_measurable() {
    let mut board = Grid::new(1, 2_000_000);
    board[(0, 0)] = Color::White;
    board[(0, 1)] = Color::White;
    board[(0, 1_999_999)] = Color::Black;
    let game = Game { board, turn: Color::White, last_move: None };
    assert!(is_measurable(&game));
    assert_eq!(evaluate(&game, Color::White), (4 - 1) + (1 + 1 - 1));
    let tall = Game { board: Grid::new(3_000, 1), turn: Color::White, last_move: None };
    assert!(is_measurable(&tall));
    assert_eq!(evaluate(&tall, Color::Black), 0);
}

#[test]
fn a_stone_of_the_other_player_lowers_the_score() {
    let open = game_of(&["..WWWW..", "........"], Color::White);
    let one_end = game_of(&[".BWWWW..", "........"], Color::White);
    let both_ends = game_of(&[".BWWWWB.", "........"], Color::White);
    let a = evaluate(&open, Color::White);
    let b = evaluate(&one_end, Color::White);
    let c = evaluate(&both_ends, Color::White);
    assert_eq!(a, 16 + 4);
    assert_eq!(b, a - 2);
    assert_eq!(c, a - 4);
    let upright = game_of(&[".", "W", "W", "W", "W", "."], Color::White);
    let blocked = game_of(&["B", "W", "W", "W", "W", "B"], Color::White);
    assert!(evaluate(&upright, Color::White) > evaluate(&blocked, Color::White));
}

#[test]
fn the_last_empty_cell_is_found() {
    let mut game = game_of(&["WBW", "BWB", "BW."], Color::Black);
    assert_eq!(best_move(&mut game, 3), Some((2, 2)));
}

#[test]
fn play_move_on_a_fresh_board() {
    let mut game = Game::new();
    let ai = AI::new(Color::White);
    assert_eq!(ai.color, Color::White);
    let choice = ai.get_best_move(&mut game, SEARCH_DEPTH).unwrap();
    assert_eq!(ai.play_move(&mut game), Ok(Color::Empty));
    assert_eq!(game.turn, Color::Black);
    assert_eq!(game.last_move, Some(choice));
    assert_eq!(game.board.get(choice.0, choice.1), Some(&Color::White));
    let stones = game.board.iter().filter(|c| **c != Color::Empty).count();
    assert_eq!(stones, 1);
}

#[test]
fn play_move_wins_where_it_can() {
    let mut game = game_of(&["BBBB.", "WWW..", ".....", ".....", "....W"], Color::Black);
    let ai = AI::new(Color::Black);
    assert_eq!(ai.play_move(&mut game), Ok(Color::Black));
    assert_eq!(game.turn, Color::Empty);
    assert_eq!(game.last_move, Some((0, 4)));
}

#[test]
fn two_searchers_play_a_game_to_its_end() {
    let mut game = Game::new();
    let white = AI::new(Color::White);
    let black = AI::new(Color::Black);
    let mut plies = 0;
    loop {
        let before = game.clone();
        let mover = if game.turn == Color::White { &white } else { &black };
        let choice = mover.get_best_move(&mut game, 1);
        assert!(same(&game, &before));
        match choice {
            None => break,
            Some(p) => {
                assert_eq!(game.board.get(p.0, p.1), Some(&Color::Empty));
                let winner = game.play(p).unwrap();
                plies += 1;
                if winner != Color::Empty {
                    assert_eq!(game.turn, Color::Empty);
                    break;
                }
            }
        }
    }
    assert!(plies >= 9 && plies <= 25);
}
