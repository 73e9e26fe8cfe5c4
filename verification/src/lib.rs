//! A chess engine's rules: the board, move generation, check detection, moves that can
//! be performed and undone, and the UCI and FEN notations.
use vstd::prelude::*;

pub mod board;
pub mod bot;
pub mod check;
pub mod fen;
pub mod generation;
pub mod go;
pub mod heuristic;
pub mod laws;
pub mod movement;
pub mod perform;
pub mod rule_laws;
pub mod text;
pub mod uci;

verus! {
}
