//! Zobrist hashing: a 64-bit key for each feature of a position, xored
//! together, so that equal positions have equal hashes.

use vstd::prelude::*;
use vstd::wrapping::u64_specs::wrapping_mul;
use crate::chess::board::Board;
use crate::chess::piece::Piece;
use crate::chess::player::Player;
use crate::chess::square::Square;

verus! {

/// The pseudo-random key of feature `i` (the SplitMix64 finaliser of `i`).
pub open spec fn key_spec(i: u64) -> u64 {
    let z0 = wrapping_mul(i, 0x9E37_79B9_7F4A_7C15u64);
    let z1 = z0 ^ (z0 >> 30u64);
    let z2 = wrapping_mul(z1, 0xBF58_476D_1CE4_E5B9u64);
    let z3 = z2 ^ (z2 >> 27u64);
    let z4 = wrapping_mul(z3, 0x94D0_49BB_1331_11EBu64);
    z4 ^ (z4 >> 31u64)
}

/// The key of feature `i`.
pub fn key(i: u64) -> (k: u64)
    ensures k == key_spec(i),
{
    let z0 = i.wrapping_mul(0x9E37_79B9_7F4A_7C15u64);
    let z1 = z0 ^ (z0 >> 30u64);
    let z2 = z1.wrapping_mul(0xBF58_476D_1CE4_E5B9u64);
    let z3 = z2 ^ (z2 >> 27u64);
    let z4 = z3.wrapping_mul(0x94D0_49BB_1331_11EBu64);
    z4 ^ (z4 >> 31u64)
}

/// The feature number of a piece on a square: 0 to 767.
pub open spec fn piece_feature(s: int, p: Piece) -> int {
    (p.player.idx() * 6 + p.kind.idx()) * 64 + s
}

/// The feature number of Black being to move.
pub open spec fn black_to_move_feature() -> int {
    768
}

/// The feature number of a castling right: 769 to 772.
pub open spec fn castle_feature(player: Player, kingside: bool) -> int {
    769 + player.idx() * 2 + if kingside { 0int } else { 1int }
}

/// The feature number of an en passant target on file `f`: 773 to 780.
pub open spec fn en_passant_feature(f: int) -> int {
    773 + f
}

/// The xor of the keys of the pieces on the first `n` squares.
pub open spec fn placement_hash(board: Board, n: int) -> u64
    decreases n,
{
    if n <= 0 {
        0
    } else {
        placement_hash(board, n - 1) ^ match board.at(n - 1) {
            Some(p) => key_spec(piece_feature(n - 1, p) as u64),
            None => 0u64,
        }
    }
}

/// The xor of the keys of all the pieces on the board.
pub fn hash_placement(board: &Board) -> (h: u64)
    ensures h == placement_hash(*board, 64),
{
    let mut h: u64 = 0;
    let mut i: usize = 0;
    while i < 64
        invariant
            i <= 64,
            h == placement_hash(*board, i as int),
        decreases 64 - i,
    {
        let sq = Square::from_array_index(i);
        if let Some(p) = board.piece_at(sq) {
            let f = ((p.player.array_idx() * 6 + p.kind.array_idx()) * 64 + i) as u64;
            h = h ^ key(f);
        } else {
            proof {
                let x = h;
                assert(x ^ 0u64 == x) by (bit_vector);
            }
        }
        i = i + 1;
    }
    h
}

} // verus!
