//! Five-in-a-row: a game-state engine with win detection, a line-based
//! positional evaluator and a look-ahead move search, with contracts
//! checked by Verus.

pub mod ai;
pub mod game;
