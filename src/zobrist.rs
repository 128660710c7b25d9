//! The fixed pseudo-random keys of Zobrist hashing.
//!
//! Every key is drawn from one SplitMix64 sequence, so the same key is used
//! in every process: key `i` is the `i`-th output of the generator.
use crate::chess::{Color, Piece, Role, Square};
use vstd::prelude::*;

verus! {

/// A 64-bit Zobrist hash of a position.
pub type Zobrist = u64;

/// Number of piece-square keys: twelve pieces on sixty-four squares.
pub const PSQ_KEYS: u64 = 768;

/// The `i`-th output of the SplitMix64 generator seeded with zero.
pub open spec fn key_spec(i: u64) -> u64 {
    let z0 = (i.wrapping_add(1)).wrapping_mul(0x9E3779B97F4A7C15u64);
    let z1 = (z0 ^ (z0 >> 30u64)).wrapping_mul(0xBF58476D1CE4E5B9u64);
    let z2 = (z1 ^ (z1 >> 27u64)).wrapping_mul(0x94D049BB133111EBu64);
    z2 ^ (z2 >> 31u64)
}

/// Computes [`key_spec`].
pub fn key(i: u64) -> (r: u64)
    ensures
        r == key_spec(i),
{
    let z0 = (i.wrapping_add(1)).wrapping_mul(0x9E3779B97F4A7C15u64);
    let z1 = (z0 ^ (z0 >> 30u64)).wrapping_mul(0xBF58476D1CE4E5B9u64);
    let z2 = (z1 ^ (z1 >> 27u64)).wrapping_mul(0x94D049BB133111EBu64);
    z2 ^ (z2 >> 31u64)
}

/// The key of piece `p` standing on square `sq`.
pub open spec fn psq_spec(p: Piece, sq: int) -> u64 {
    key_spec((p.idx() * 64 + sq) as u64)
}

/// The key of the side to move being Black.
pub open spec fn turn_spec() -> u64 {
    key_spec(PSQ_KEYS)
}

/// The key of an en passant square on `file`.
pub open spec fn en_passant_spec(file: int) -> u64 {
    key_spec((PSQ_KEYS + 1 + file) as u64)
}

/// The key of the castling rights `mask`.
pub open spec fn castling_spec(mask: int) -> u64 {
    key_spec((PSQ_KEYS + 9 + mask) as u64)
}

/// The key of a piece of color `c` and role `r` standing on `sq`.
pub fn psq(c: Color, r: Role, sq: Square) -> (k: u64)
    requires
        sq.wf(),
    ensures
        k == psq_spec(Piece { role: r, color: c }, sq.0 as int),
{
    let i = (c.index() * 6 + r.index()) as u64;
    key(i * 64 + sq.0 as u64)
}

/// The key of the side to move being Black.
pub fn turn() -> (k: u64)
    ensures
        k == turn_spec(),
{
    key(PSQ_KEYS)
}

/// The key of an en passant square on `file`.
pub fn en_passant(file: u8) -> (k: u64)
    requires
        file < 8,
    ensures
        k == en_passant_spec(file as int),
{
    key(PSQ_KEYS + 1 + file as u64)
}

/// The key of the castling rights `mask`.
pub fn castling(mask: u8) -> (k: u64)
    requires
        mask < 16,
    ensures
        k == castling_spec(mask as int),
{
    key(PSQ_KEYS + 9 + mask as u64)
}

} // verus!
