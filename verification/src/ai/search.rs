//! Best-move search: every candidate is tried on the game itself, looked
//! ahead from, scored and taken back.

use vstd::prelude::*;
use crate::game::{Cell, Game, Position};
use crate::game::color::Color;
use crate::game::grid_board::{cell_at, stone_taken_back, with_cell};
use super::candidates::{candidate_moves, candidates, candidates_are_empty};
use super::evaluate::{board_score, evaluate, measurable, width};

verus! {

/// What a candidate move is worth: an immediate win, or else the score of
/// the position that the look-ahead from it ends in.
pub ghost enum Rank {
    Value(int),
    Win,
}

/// `a` is strictly better than `b`: a win beats every score, and a higher
/// score beats a lower one.
pub open spec fn outranks(a: Rank, b: Rank) -> bool {
    match (a, b) {
        (Rank::Win, Rank::Value(_)) => true,
        (Rank::Value(x), Rank::Value(y)) => x > y,
        _ => false,
    }
}

/// The position after `plies` further moves, each the choice that the
/// player to move makes by a search of depth `depth - 1`. The look-ahead
/// stops early where a player has no move.
pub open spec fn rollout(s: Position, plies: nat, depth: nat) -> Position
    decreases depth, 0nat, plies,
{
    if plies == 0 || depth == 0 {
        s
    } else {
        match choice(s, (depth - 1) as nat) {
            Some(m) => rollout(s.place(m), (plies - 1) as nat, depth),
            None => s,
        }
    }
}

/// The rank of the `i`-th candidate for the player to move: a win if the
/// stone completes five in a line, else the board's score for that player
/// after `depth` plies of look-ahead.
pub open spec fn rank(s: Position, depth: nat, i: int) -> Rank
    decreases depth, 1nat, 0nat,
{
    let c = candidates(s.cells)[i];
    if s.wins(c) {
        Rank::Win
    } else {
        Rank::Value(board_score(rollout(s.place(c), depth, depth).cells, s.turn))
    }
}

/// The ranks of the candidates, in the candidates' order.
pub open spec fn ranks(s: Position, depth: nat) -> Seq<Rank>
    decreases depth, 2nat, 0nat,
{
    Seq::new(candidates(s.cells).len(), |i: int| rank(s, depth, i))
}

/// The `i`-th of the ranks leads: none outranks it, and it outranks every
/// one before it.
pub open spec fn leads(ranks: Seq<Rank>, i: int) -> bool {
    &&& 0 <= i < ranks.len()
    &&& forall|j: int| 0 <= j < ranks.len() ==> !outranks(#[trigger] ranks[j], ranks[i])
    &&& forall|j: int| 0 <= j < i ==> outranks(ranks[i], #[trigger] ranks[j])
}

/// The move that a search of the given depth picks for the player to
/// move: the first of the best-ranked candidates, or none when the game is
/// over or no cell is left to play.
pub open spec fn choice(s: Position, depth: nat) -> Option<(usize, usize)>
    decreases depth, 3nat, 0nat,
{
    if s.turn == Color::Empty || candidates(s.cells).len() == 0 {
        None
    } else {
        Some(candidates(s.cells)[choose|i: int| leads(ranks(s, depth), i)])
    }
}

/// The position after the moves of `trail`, placed in order.
pub open spec fn play_out(s: Position, trail: Seq<(usize, usize)>) -> Position
    decreases trail.len(),
{
    if trail.len() == 0 {
        s
    } else {
        play_out(s, trail.drop_last()).place(trail.last())
    }
}

/// Every move of `trail` went to a cell that was empty when it was made.
pub open spec fn onto_empty(s: Position, trail: Seq<(usize, usize)>) -> bool
    decreases trail.len(),
{
    trail.len() == 0 || (onto_empty(s, trail.drop_last()) && play_out(s, trail.drop_last()).at(
        trail.last(),
    ) == Some(Color::Empty))
}

/// At most one of the ranks leads.
pub proof fn leads_once(ranks: Seq<Rank>, i: int, j: int)
    requires
        leads(ranks, i),
        leads(ranks, j),
    ensures
        i == j,
{
    if i < j {
        assert(outranks(ranks[j], ranks[i]));
    } else if j < i {
        assert(outranks(ranks[i], ranks[j]));
    }
}

/// A stone on a cell of the board leaves the board's extent as it was.
pub proof fn stone_keeps_extent(cells: Seq<Seq<Color>>, x: int, y: int, color: Color)
    requires
        measurable(cells),
        cell_at(cells, x, y) is Some,
    ensures
        measurable(with_cell(cells, x, y, color)),
{
    let next = with_cell(cells, x, y, color);
    assert(width(next) == width(cells));
    assert forall|i: int| 0 <= i < next.len() implies (#[trigger] next[i]).len() == width(next) by {
        assert(cells[i].len() == width(cells));
    }
}

/// Picks the move for the player to move by trying every candidate: a
/// stone that wins at once is taken outright; any other is scored by the
/// position that `depth` plies of look-ahead lead to. The first of the
/// best-scored candidates is returned, and the game is left as it was.
pub fn best_move(game: &mut Game, depth: usize) -> (r: Option<(usize, usize)>)
    requires
        measurable(old(game)@.cells),
    ensures
        final(game)@ == old(game)@,
        r == choice(old(game)@, depth as nat),
        r matches Some(p) ==> old(game)@.legal(p),
    decreases depth, 1nat,
{
    if game.turn == Color::Empty {
        return None;
    }
    let ghost s = game@;
    let ghost all = ranks(s, depth as nat);
    let me = game.turn;
    let last = game.last_move;
    let moves = candidate_moves(game);
    let mut best: Option<(usize, usize)> = None;
    let mut best_score: i64 = 0;
    let ghost mut best_at: int = 0;
    let mut i: usize = 0;
    while i < moves.len()
        invariant
            game@ == s,
            s == old(game)@,
            all == ranks(s, depth as nat),
            measurable(s.cells),
            me == s.turn,
            me != Color::Empty,
            last == s.last_move,
            moves@ == candidates(s.cells),
            i <= moves.len(),
            forall|j: int| 0 <= j < i ==> #[trigger] all[j] is Value,
            best is None <==> i == 0,
            best is Some ==> {
                &&& 0 <= best_at < i
                &&& best == Some(moves@[best_at])
                &&& all[best_at] == Rank::Value(best_score as int)
                &&& forall|j: int| 0 <= j < i ==> !outranks(#[trigger] all[j], all[best_at])
                &&& forall|j: int| 0 <= j < best_at ==> outranks(all[best_at], #[trigger] all[j])
            },
        decreases moves.len() - i,
    {
        let c = moves[i];
        proof {
            candidates_are_empty(s.cells, i as int);
            stone_taken_back(s.cells, c.0 as int, c.1 as int, me);
            stone_keeps_extent(s.cells, c.0 as int, c.1 as int, me);
            assert(all[i as int] == rank(s, depth as nat, i as int));
        }
        game.play_no_win_check(c);
        if game.check_win_for_cell(Cell { color: me, x: c.0, y: c.1 }) {
            game.unplay(c);
            game.last_move = last;
            proof {
                assert(all[i as int] == Rank::Win);
                assert(leads(all, i as int));
                leads_once(all, i as int, choose|k: int| leads(all, k));
            }
            return Some(c);
        }
        let score = look_ahead(game, depth, me);
        game.unplay(c);
        game.last_move = last;
        assert(all[i as int] == Rank::Value(score as int));
        if best.is_none() || score > best_score {
            best = Some(c);
            best_score = score;
            proof {
                best_at = i as int;
            }
        }
        i = i + 1;
    }
    proof {
        if moves.len() > 0 {
            assert(leads(all, best_at));
            leads_once(all, best_at, choose|k: int| leads(all, k));
            candidates_are_empty(s.cells, best_at);
        }
    }
    best
}

/// Looks `depth` plies ahead of the position, each ply the choice of the
/// player to move by a search of depth `depth - 1`, and scores where that
/// leads for `me`. The moves made go on a trail and are taken back from
/// its end, so that the game is left as it was.
pub fn look_ahead(game: &mut Game, depth: usize, me: Color) -> (score: i64)
    requires
        measurable(old(game)@.cells),
    ensures
        final(game)@ == old(game)@,
        score == board_score(rollout(old(game)@, depth as nat, depth as nat).cells, me),
    decreases depth, 0nat,
{
    let ghost s = game@;
    let last = game.last_move;
    let mut trail: Vec<(usize, usize)> = Vec::new();
    let mut stuck = false;
    while trail.len() < depth && !stuck
        invariant
            measurable(game@.cells),
            game@ == play_out(s, trail@),
            onto_empty(s, trail@),
            trail.len() <= depth,
            rollout(s, depth as nat, depth as nat) == if stuck {
                game@
            } else {
                rollout(game@, (depth - trail.len()) as nat, depth as nat)
            },
        decreases depth - trail.len() + if stuck { 0int } else { 1int },
    {
        match best_move(game, depth - 1) {
            Some(m) => {
                proof {
                    stone_keeps_extent(game@.cells, m.0 as int, m.1 as int, game@.turn);
                }
                let ghost before = trail@;
                game.play_no_win_check(m);
                trail.push(m);
                assert(trail@.drop_last() =~= before);
            },
            None => {
                stuck = true;
            },
        }
    }
    let score = evaluate(game, me);
    while trail.len() > 0
        invariant
            game@.cells == play_out(s, trail@).cells,
            game@.turn == play_out(s, trail@).turn,
            onto_empty(s, trail@),
        decreases trail.len(),
    {
        let ghost whole = trail@;
        let m = trail[trail.len() - 1];
        trail.pop();
        assert(trail@ =~= whole.drop_last());
        proof {
            let prev = play_out(s, trail@);
            stone_taken_back(prev.cells, m.0 as int, m.1 as int, prev.turn);
        }
        game.unplay(m);
    }
    game.last_move = last;
    score
}

} // verus!
