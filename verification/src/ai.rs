//! The opponent: a line-based evaluation of a position and a look-ahead
//! search for the best move.

use vstd::prelude::*;
use crate::game::{Game, GameError};
use crate::game::color::Color;

pub mod blocking;
pub mod candidates;
pub mod evaluate;
pub mod policy;
pub mod search;

pub use evaluate::evaluate;
use evaluate::measurable;
use candidates::candidates;
use search::{best_move, choice};

verus! {

/// How many plies `AI::play_move` looks ahead.
pub const SEARCH_DEPTH: usize = 3;

/// A player that picks its moves by search.
#[derive(Clone, Copy, Debug)]
pub struct AI {
    /// The colour that this player moves for.
    pub color: Color,
}

impl AI {
    /// A searching player for the given colour.
    pub fn new(color: Color) -> (ai: AI)
        ensures
            ai.color == color,
    {
        AI { color }
    }

    /// The move that a search of the given depth picks. It must be this
    /// player's turn in a game that is on. The move is an empty cell, or
    /// none when the board is full, and the game is left as it was.
    pub fn get_best_move(&self, game: &mut Game, depth: usize) -> (r: Option<(usize, usize)>)
        requires
            old(game)@.turn == self.color,
            old(game)@.turn != Color::Empty,
            measurable(old(game)@.cells),
        ensures
            final(game)@ == old(game)@,
            r == choice(old(game)@, depth as nat),
            r matches Some(p) ==> old(game)@.at(p) == Some(Color::Empty),
            r is None <==> candidates(old(game)@.cells).len() == 0,
    {
        best_move(game, depth)
    }

    /// Picks a move by a search of depth `SEARCH_DEPTH` and plays it. It must
    /// be this player's turn in a game that is on. On a full board there is
    /// no move to pick: nothing changes and the refusal is `IllegalMove`.
    pub fn play_move(&self, game: &mut Game) -> (r: Result<Color, GameError>)
        requires
            old(game)@.turn == self.color,
            old(game)@.turn != Color::Empty,
            measurable(old(game)@.cells),
        ensures
            match choice(old(game)@, SEARCH_DEPTH as nat) {
                Some(p) => final(game)@ == old(game)@.settle(p) && r == Ok::<Color, GameError>(
                    old(game)@.winner(p),
                ),
                None => final(game)@ == old(game)@ && r == Err::<Color, GameError>(
                    GameError::IllegalMove,
                ),
            },
    {
        match self.get_best_move(game, SEARCH_DEPTH) {
            Some(p) => game.play(p),
            None => Err(GameError::IllegalMove),
        }
    }
}

} // verus!
