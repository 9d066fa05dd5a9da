//! Bitboards of fixed sets of squares: ranks, files and the squares
//! involved in castling.

use vstd::prelude::*;
use crate::chess::bits::{bit, bits_of};
use crate::chess::player::Player;
use crate::chess::square::{Square, rank_of, file_of};
use super::{Bitboard, rank_set, file_set, RANK_1_BITS, A_FILE_BITS};

verus! {

proof fn lemma_rank_bits(r: u64, t: u64)
    requires r < 8, t < 64,
    ensures bit(RANK_1_BITS << (8 * r), t) == (t / 8 == r),
{
    assert((((0xffu64 << (8 * r)) >> t) & 1u64 == 1u64) == (t / 8 == r)) by (bit_vector)
        requires r < 8, t < 64;
}

proof fn lemma_file_bits(f: u64, t: u64)
    requires f < 8, t < 64,
    ensures bit(A_FILE_BITS << f, t) == (t % 8 == f),
{
    assert((((0x0101_0101_0101_0101u64 << f) >> t) & 1u64 == 1u64) == (t % 8 == f)) by (bit_vector)
        requires f < 8, t < 64;
}

/// The squares of the rank with index `r` (0 for rank 1).
pub fn rank(r: usize) -> (b: Bitboard)
    requires r < 8,
    ensures b@ =~= rank_set(r as int),
{
    let rr = r as u64;
    let b = Bitboard(RANK_1_BITS << (8 * rr));
    proof {
        assert forall|t: int| 0 <= t < 64 implies b@.contains(t) == rank_set(r as int).contains(t) by {
            lemma_rank_bits(rr, t as u64);
        }
    }
    b
}

/// The squares of the file with index `f` (0 for the a-file).
pub fn file(f: usize) -> (b: Bitboard)
    requires f < 8,
    ensures b@ =~= file_set(f as int),
{
    let ff = f as u64;
    let b = Bitboard(A_FILE_BITS << ff);
    proof {
        assert forall|t: int| 0 <= t < 64 implies b@.contains(t) == file_set(f as int).contains(t) by {
            lemma_file_bits(ff, t as u64);
        }
    }
    b
}

/// The rank on which the player's pieces start.
pub fn back_rank(player: Player) -> (b: Bitboard)
    ensures b@ =~= rank_set(if player == Player::White { 0 } else { 7 }),
{
    match player {
        Player::White => rank(0),
        Player::Black => rank(7),
    }
}

/// The rank on which the player's pawns start.
pub fn pawn_back_rank(player: Player) -> (b: Bitboard)
    ensures b@ =~= rank_set(if player == Player::White { 1 } else { 6 }),
{
    match player {
        Player::White => rank(1),
        Player::Black => rank(6),
    }
}

/// The rank on which the player's pawns land after a double push.
pub fn pawn_double_push_rank(player: Player) -> (b: Bitboard)
    ensures b@ =~= rank_set(if player == Player::White { 3 } else { 4 }),
{
    match player {
        Player::White => rank(3),
        Player::Black => rank(4),
    }
}

/// The index of the square on which the player's king starts.
pub open spec fn king_start_index(player: Player) -> int {
    if player == Player::White { 4 } else { 60 }
}

/// For castling on the given side: the squares that must be empty, the
/// square the king lands on, and the square the king passes over.
pub open spec fn castle_squares_spec(kingside: bool, player: Player) -> (Set<int>, int, int) {
    let base: int = if player == Player::White { 0 } else { 56 };
    if kingside {
        (set![base + 5, base + 6], base + 6, base + 5)
    } else {
        (set![base + 1, base + 2, base + 3], base + 2, base + 3)
    }
}

pub fn castle_squares<const KINGSIDE: bool>(player: Player) -> (r: (Bitboard, Square, Square))
    ensures
        r.0@ =~= castle_squares_spec(KINGSIDE, player).0,
        r.1@ == castle_squares_spec(KINGSIDE, player).1,
        r.2@ == castle_squares_spec(KINGSIDE, player).2,
{
    let base: u8 = match player {
        Player::White => 0,
        Player::Black => 56,
    };
    if KINGSIDE {
        let f = Square::from_index(base + 5);
        let g = Square::from_index(base + 6);
        (f.bb().or(g.bb()), g, f)
    } else {
        let b = Square::from_index(base + 1);
        let c = Square::from_index(base + 2);
        let d = Square::from_index(base + 3);
        (b.bb().or(c.bb()).or(d.bb()), c, d)
    }
}

} // verus!
