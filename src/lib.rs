//! A chess engine core: board representation with Zobrist hashing and FEN,
//! moves, the transposition table and its entry encoding, the NNUE weight
//! layout, accumulator and hidden layer, and the decisions of the UCI front
//! end.
use vstd::prelude::*;

pub mod chess;
pub mod board;
pub mod zobrist;
pub mod text;
pub mod moves;
pub mod transposition;
pub mod table;
pub mod hidden;
pub mod damp;
pub mod depth;
pub mod fen;
pub mod fen_laws;
pub mod uci;
pub mod nnue;
pub mod accumulator;

verus! {

} // verus!
