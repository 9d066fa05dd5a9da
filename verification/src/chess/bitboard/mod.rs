//! Sets of squares packed into the 64 bits of a `u64`: bit `i` stands for
//! square `i` (a1 = 0, h1 = 7, a8 = 56, h8 = 63).

use vstd::prelude::*;
use vstd::set_lib::set_int_range;
use vstd::std_specs::bits::u64_trailing_zeros;
use crate::chess::bits::{bit, bits_of, lemma_bit_and, lemma_bit_or, lemma_bit_xor, lemma_bit_not, lemma_bit_shl, lemma_bit_shr, lemma_bit_full, lemma_bit_single, lemma_bits_of_finite, lemma_zero_iff_no_bits, lemma_trailing_zeros_is_min};
use crate::chess::direction::Direction;
use crate::chess::player::Player;
use crate::chess::square::{Square, on_board, file_of, rank_of};

pub mod bitboards;

verus! {

/// A set of squares.
#[derive(Debug, Clone, Copy, PartialEq, Eq, Structural)]
pub struct Bitboard(pub u64);

/// The bits of the a-file.
pub const A_FILE_BITS: u64 = 0x0101_0101_0101_0101u64;
/// The bits of the h-file.
pub const H_FILE_BITS: u64 = 0x8080_8080_8080_8080u64;
/// The bits of every square off the a-file.
pub const NOT_A_FILE_BITS: u64 = 0xfefe_fefe_fefe_fefeu64;
/// The bits of every square off the h-file.
pub const NOT_H_FILE_BITS: u64 = 0x7f7f_7f7f_7f7f_7f7fu64;
/// The bits of rank 1.
pub const RANK_1_BITS: u64 = 0x0000_0000_0000_00ffu64;

/// All squares of the board.
pub open spec fn all_squares() -> Set<int> {
    set_int_range(0, 64)
}

/// The squares of `b` moved `df` files east and `dr` ranks north, dropping
/// those that would leave the board.
pub open spec fn shift_set(b: Set<int>, df: int, dr: int) -> Set<int> {
    Set::new(
        |t: int|
            on_board(t) && 0 <= file_of(t) - df < 8 && 0 <= rank_of(t) - dr < 8 && b.contains(
                t - df - 8 * dr,
            ),
    )
}

/// The change of rank index of a step towards the opponent of `player`.
pub open spec fn forward_dr(player: Player) -> int {
    match player {
        Player::White => 1,
        Player::Black => -1,
    }
}

/// The square `df` files east and `dr` ranks north of `s`, as a set: empty
/// when that square is off the board.
pub open spec fn step_set(s: int, df: int, dr: int) -> Set<int> {
    if 0 <= file_of(s) + df < 8 && 0 <= rank_of(s) + dr < 8 {
        set![s + df + 8 * dr]
    } else {
        Set::empty()
    }
}

/// The file and rank of a square reached from `s` by a step on the board.
pub proof fn lemma_step_coords(s: int, df: int, dr: int)
    requires
        on_board(s),
        0 <= file_of(s) + df < 8,
        0 <= rank_of(s) + dr < 8,
    ensures
        on_board(s + df + 8 * dr),
        file_of(s + df + 8 * dr) == file_of(s) + df,
        rank_of(s + df + 8 * dr) == rank_of(s) + dr,
{
    let t = s + df + 8 * dr;
    assert(t == (rank_of(s) + dr) * 8 + (file_of(s) + df));
    vstd::arithmetic::div_mod::lemma_fundamental_div_mod_converse(t, 8, rank_of(s) + dr, file_of(s) + df);
}

/// Moving a single square is a step.
pub proof fn lemma_shift_single(s: int, df: int, dr: int)
    requires on_board(s),
    ensures shift_set(set![s], df, dr) =~= step_set(s, df, dr),
{
    if 0 <= file_of(s) + df < 8 && 0 <= rank_of(s) + dr < 8 {
        lemma_step_coords(s, df, dr);
    }
    assert forall|t: int| #[trigger] shift_set(set![s], df, dr).contains(t) implies step_set(s, df, dr).contains(t) by {
        lemma_step_coords(t, -df, -dr);
    }
}

/// Two steps without reversal along either axis make one step.
pub proof fn lemma_shift_step(s: int, a1: int, b1: int, a2: int, b2: int)
    requires
        on_board(s),
        (a1 >= 0 && a2 >= 0) || (a1 <= 0 && a2 <= 0),
        (b1 >= 0 && b2 >= 0) || (b1 <= 0 && b2 <= 0),
    ensures shift_set(step_set(s, a1, b1), a2, b2) =~= step_set(s, a1 + a2, b1 + b2),
{
    if 0 <= file_of(s) + a1 < 8 && 0 <= rank_of(s) + b1 < 8 {
        lemma_step_coords(s, a1, b1);
        lemma_shift_single(s + a1 + 8 * b1, a2, b2);
    } else {
        assert forall|t: int| !#[trigger] shift_set(step_set(s, a1, b1), a2, b2).contains(t) by {}
    }
}

/// Whether `m` is the least element of `s`.
pub open spec fn is_least(s: Set<int>, m: int) -> bool {
    s.contains(m) && forall|x: int| #[trigger] s.contains(x) ==> m <= x
}

/// The squares of rank `r` (0 for rank 1).
pub open spec fn rank_set(r: int) -> Set<int> {
    Set::new(|t: int| on_board(t) && rank_of(t) == r)
}

/// The squares of file `f` (0 for the a-file).
pub open spec fn file_set(f: int) -> Set<int> {
    Set::new(|t: int| on_board(t) && file_of(t) == f)
}

/// The square reflected across the line between ranks 4 and 5.
pub open spec fn flip_square(s: int) -> int {
    (7 - rank_of(s)) * 8 + file_of(s)
}

impl View for Bitboard {
    type V = Set<int>;

    open spec fn view(&self) -> Set<int> {
        bits_of(self.0)
    }
}

proof fn lemma_not_a_file(t: u64)
    requires t < 64,
    ensures bit(NOT_A_FILE_BITS, t) == (t % 8 != 0),
{
    assert(((0xfefe_fefe_fefe_fefeu64 >> t) & 1u64 == 1u64) == (t % 8 != 0)) by (bit_vector)
        requires t < 64;
}

proof fn lemma_not_h_file(t: u64)
    requires t < 64,
    ensures bit(NOT_H_FILE_BITS, t) == (t % 8 != 7),
{
    assert(((0x7f7f_7f7f_7f7f_7f7fu64 >> t) & 1u64 == 1u64) == (t % 8 != 7)) by (bit_vector)
        requires t < 64;
}

impl Bitboard {
    pub fn new(bits: u64) -> (r: Self)
        ensures r.0 == bits,
    {
        Bitboard(bits)
    }

    pub fn as_u64(self) -> (r: u64)
        ensures r == self.0,
    {
        self.0
    }

    /// The empty set of squares.
    pub fn empty() -> (r: Self)
        ensures r@ =~= Set::<int>::empty(), r.0 == 0,
    {
        proof { lemma_zero_iff_no_bits(0); }
        Bitboard(0)
    }

    /// The set of all squares.
    pub fn full() -> (r: Self)
        ensures r@ =~= all_squares(),
    {
        proof {
            assert forall|i: int| 0 <= i < 64 implies #[trigger] bits_of(0xffff_ffff_ffff_ffffu64).contains(i) by {
                lemma_bit_full(i as u64);
            }
        }
        Bitboard(0xffff_ffff_ffff_ffffu64)
    }

    /// Every square but one.
    pub fn all_except(square: Square) -> (r: Self)
        ensures r@ =~= all_squares().remove(square@),
    {
        square.bb().invert()
    }

    pub fn is_empty(self) -> (r: bool)
        ensures r == (self@ =~= Set::<int>::empty()),
    {
        proof { lemma_zero_iff_no_bits(self.0); }
        self.0 == 0
    }

    pub fn any(self) -> (r: bool)
        ensures r == !(self@ =~= Set::<int>::empty()),
    {
        proof { lemma_zero_iff_no_bits(self.0); }
        self.0 != 0
    }

    pub fn contains(self, square: Square) -> (r: bool)
        ensures r == self@.contains(square@),
    {
        let i = square.idx() as u64;
        proof { lemma_bit_and(self.0, 1u64, 0); }
        let r = (self.0 >> i) & 1 == 1;
        r
    }

    /// The only square of a set of one square.
    pub fn single(self) -> (s: Square)
        requires self@.len() == 1,
        ensures self@ =~= set![s@],
    {
        proof {
            lemma_bits_of_finite(self.0);
            if self.0 == 0 {
                lemma_zero_iff_no_bits(self.0);
                assert(self@.len() == 0);
            }
            lemma_trailing_zeros_is_min(self.0);
            let m = u64_trailing_zeros(self.0) as int;
            assert(self@.remove(m).len() == 0);
            self@.remove(m).lemma_len0_is_empty();
            assert forall|x: int| self@.contains(x) implies x == m by {
                if x != m {
                    assert(self@.remove(m).contains(x));
                }
            }
        }
        Square::from_index(self.0.trailing_zeros() as u8)
    }

    /// The complement of the set.
    pub fn invert(self) -> (r: Self)
        ensures r@ =~= all_squares().difference(self@),
    {
        let r = Bitboard(!self.0);
        proof {
            assert forall|i: int| 0 <= i < 64 implies r@.contains(i) == !self@.contains(i) by {
                lemma_bit_not(self.0, i as u64);
            }
        }
        r
    }

    /// The intersection of two sets.
    pub fn and(self, other: Self) -> (r: Self)
        ensures r@ =~= self@.intersect(other@),
    {
        let r = Bitboard(self.0 & other.0);
        proof {
            assert forall|i: int| 0 <= i < 64 implies r@.contains(i) == (self@.contains(i) && other@.contains(i)) by {
                lemma_bit_and(self.0, other.0, i as u64);
            }
        }
        r
    }

    /// The union of two sets.
    pub fn or(self, other: Self) -> (r: Self)
        ensures r@ =~= self@.union(other@),
    {
        let r = Bitboard(self.0 | other.0);
        proof {
            assert forall|i: int| 0 <= i < 64 implies r@.contains(i) == (self@.contains(i) || other@.contains(i)) by {
                lemma_bit_or(self.0, other.0, i as u64);
            }
        }
        r
    }

    /// The squares of exactly one of the two sets.
    pub fn xor(self, other: Self) -> (r: Self)
        ensures r@ =~= self@.difference(other@).union(other@.difference(self@)),
    {
        let r = Bitboard(self.0 ^ other.0);
        proof {
            assert forall|i: int| 0 <= i < 64 implies r@.contains(i) == (self@.contains(i) != other@.contains(i)) by {
                lemma_bit_xor(self.0, other.0, i as u64);
            }
        }
        r
    }

    /// The squares of `self` that are not in `other`.
    pub fn without(self, other: Self) -> (r: Self)
        ensures r@ =~= self@.difference(other@),
    {
        self.and(other.invert())
    }

    /// The difference of the two words as integers, wrapping around.
    pub fn wrapping_sub(self, other: Self) -> (r: Self)
        ensures r.0 == vstd::wrapping::u64_specs::wrapping_sub(self.0, other.0),
    {
        Bitboard(self.0.wrapping_sub(other.0))
    }

    /// The index of the least square of the set, or 64 when it is empty.
    pub open spec fn lowest(self) -> int {
        u64_trailing_zeros(self.0) as int
    }

    /// The least square of the set, as a set; a1 alone when the set is empty.
    pub fn lsb(self) -> (r: Self)
        ensures
            !self@.is_empty() ==> is_least(self@, self.lowest()) && r@ =~= set![self.lowest()],
            self@.is_empty() ==> r@ =~= set![0int],
    {
        let t = self.0.trailing_zeros();
        proof { lemma_zero_iff_no_bits(self.0); }
        if t < 64 {
            proof {
                lemma_trailing_zeros_is_min(self.0);
                assert forall|i: int| 0 <= i < 64 implies bits_of(1u64 << t).contains(i) == (i == t) by {
                    lemma_bit_single(t as u64, i as u64);
                }
            }
            Bitboard(1u64 << t)
        } else {
            proof {
                vstd::std_specs::bits::axiom_u64_trailing_zeros(self.0);
                assert forall|i: int| 0 <= i < 64 implies bits_of(1u64).contains(i) == (i == 0) by {
                    lemma_bit_single(0, i as u64);
                    assert(1u64 << 0u64 == 1u64) by (bit_vector);
                }
            }
            Bitboard(1)
        }
    }

    /// Removes the least square of a nonempty set and returns it as a set.
    pub fn pop_lsb_inplace(&mut self) -> (r: Self)
        requires !old(self)@.is_empty(),
        ensures
            is_least(old(self)@, old(self).lowest()),
            r@ =~= set![old(self).lowest()],
            final(self)@ =~= old(self)@.remove(old(self).lowest()),
    {
        let lsb = self.lsb();
        let x = self.0;
        self.0 = x & !lsb.0;
        proof {
            assert forall|i: int| 0 <= i < 64 implies bits_of(x & !lsb.0).contains(i) == (bits_of(x).contains(i) && !lsb@.contains(i)) by {
                lemma_bit_and(x, !lsb.0, i as u64);
                lemma_bit_not(lsb.0, i as u64);
            }
        }
        lsb
    }

    /// Removes the least square of a nonempty set and returns it.
    pub fn pop_square(&mut self) -> (s: Square)
        requires !old(self)@.is_empty(),
        ensures
            is_least(old(self)@, s@),
            final(self)@ =~= old(self)@.remove(s@),
    {
        proof { lemma_trailing_zeros_is_min(self.0); lemma_zero_iff_no_bits(self.0); }
        let s = Square::from_index(self.0.trailing_zeros() as u8);
        self.pop_lsb_inplace();
        s
    }

    /// Adds a square to the set.
    pub fn set_inplace(&mut self, square: Square)
        ensures final(self)@ =~= old(self)@.insert(square@),
    {
        *self = self.or(square.bb());
    }

    /// Removes a square from the set.
    pub fn unset_inplace(&mut self, square: Square)
        ensures final(self)@ =~= old(self)@.remove(square@),
    {
        *self = self.and(square.bb().invert());
    }

    /// The number of squares in the set.
    pub fn count(self) -> (r: u8)
        ensures
            r == self@.len(),
            self@.finite(),
            r <= 64,
    {
        let mut b = self;
        let mut n: u8 = 0;
        proof { lemma_bits_of_finite(self.0); }
        while b.any()
            invariant
                b@.finite(),
                b@.subset_of(self@),
                self@.finite(),
                self@.len() <= 64,
                n + b@.len() == self@.len(),
            decreases b@.len(),
        {
            let ghost old_b = b;
            proof { lemma_bits_of_finite(b.0); }
            let _ = b.pop_lsb_inplace();
            proof {
                assert(old_b@.contains(old_b.lowest()));
                assert(old_b@.len() >= 1);
            }
            n = n + 1;
        }
        proof { lemma_bits_of_finite(self.0); }
        n
    }

    /// The set moved one rank north.
    pub fn north(self) -> (r: Self)
        ensures r@ =~= shift_set(self@, 0, 1),
    {
        let r = Bitboard(self.0 << 8u64);
        proof {
            assert forall|t: int| 0 <= t < 64 implies r@.contains(t) == shift_set(self@, 0, 1).contains(t) by {
                lemma_bit_shl(self.0, 8, t as u64);
            }
        }
        r
    }

    /// The set moved one rank south.
    pub fn south(self) -> (r: Self)
        ensures r@ =~= shift_set(self@, 0, -1),
    {
        let r = Bitboard(self.0 >> 8u64);
        proof {
            assert forall|t: int| 0 <= t < 64 implies r@.contains(t) == shift_set(self@, 0, -1).contains(t) by {
                lemma_bit_shr(self.0, 8, t as u64);
            }
        }
        r
    }

    /// The set moved one file east.
    pub fn east(self) -> (r: Self)
        ensures r@ =~= shift_set(self@, 1, 0),
    {
        // A square that lands on the a-file has wrapped around from the h-file.
        let r = Bitboard((self.0 << 1u64) & NOT_A_FILE_BITS);
        proof {
            assert forall|t: int| 0 <= t < 64 implies r@.contains(t) == shift_set(self@, 1, 0).contains(t) by {
                lemma_bit_and(self.0 << 1u64, NOT_A_FILE_BITS, t as u64);
                lemma_bit_shl(self.0, 1, t as u64);
                lemma_not_a_file(t as u64);
            }
        }
        r
    }

    /// The set moved one square north-east.
    pub fn north_east(self) -> (r: Self)
        ensures r@ =~= shift_set(self@, 1, 1),
    {
        let r = Bitboard((self.0 << 9u64) & NOT_A_FILE_BITS);
        proof {
            assert forall|t: int| 0 <= t < 64 implies r@.contains(t) == shift_set(self@, 1, 1).contains(t) by {
                lemma_bit_and(self.0 << 9u64, NOT_A_FILE_BITS, t as u64);
                lemma_bit_shl(self.0, 9, t as u64);
                lemma_not_a_file(t as u64);
            }
        }
        r
    }

    /// The set moved one square south-east.
    pub fn south_east(self) -> (r: Self)
        ensures r@ =~= shift_set(self@, 1, -1),
    {
        let r = Bitboard((self.0 >> 7u64) & NOT_A_FILE_BITS);
        proof {
            assert forall|t: int| 0 <= t < 64 implies r@.contains(t) == shift_set(self@, 1, -1).contains(t) by {
                lemma_bit_and(self.0 >> 7u64, NOT_A_FILE_BITS, t as u64);
                lemma_bit_shr(self.0, 7, t as u64);
                lemma_not_a_file(t as u64);
            }
        }
        r
    }

    /// The set moved one file west.
    pub fn west(self) -> (r: Self)
        ensures r@ =~= shift_set(self@, -1, 0),
    {
        // A square that lands on the h-file has wrapped around from the a-file.
        let r = Bitboard((self.0 >> 1u64) & NOT_H_FILE_BITS);
        proof {
            assert forall|t: int| 0 <= t < 64 implies r@.contains(t) == shift_set(self@, -1, 0).contains(t) by {
                lemma_bit_and(self.0 >> 1u64, NOT_H_FILE_BITS, t as u64);
                lemma_bit_shr(self.0, 1, t as u64);
                lemma_not_h_file(t as u64);
            }
        }
        r
    }

    /// The set moved one square south-west.
    pub fn south_west(self) -> (r: Self)
        ensures r@ =~= shift_set(self@, -1, -1),
    {
        let r = Bitboard((self.0 >> 9u64) & NOT_H_FILE_BITS);
        proof {
            assert forall|t: int| 0 <= t < 64 implies r@.contains(t) == shift_set(self@, -1, -1).contains(t) by {
                lemma_bit_and(self.0 >> 9u64, NOT_H_FILE_BITS, t as u64);
                lemma_bit_shr(self.0, 9, t as u64);
                lemma_not_h_file(t as u64);
            }
        }
        r
    }

    /// The set moved one square north-west.
    pub fn north_west(self) -> (r: Self)
        ensures r@ =~= shift_set(self@, -1, 1),
    {
        let r = Bitboard((self.0 << 7u64) & NOT_H_FILE_BITS);
        proof {
            assert forall|t: int| 0 <= t < 64 implies r@.contains(t) == shift_set(self@, -1, 1).contains(t) by {
                lemma_bit_and(self.0 << 7u64, NOT_H_FILE_BITS, t as u64);
                lemma_bit_shl(self.0, 7, t as u64);
                lemma_not_h_file(t as u64);
            }
        }
        r
    }

    /// The set moved one step in the given direction.
    pub fn in_direction(self, direction: Direction) -> (r: Self)
        ensures r@ =~= shift_set(self@, direction.df(), direction.dr()),
    {
        match direction {
            Direction::North => self.north(),
            Direction::NorthEast => self.north_east(),
            Direction::East => self.east(),
            Direction::SouthEast => self.south_east(),
            Direction::South => self.south(),
            Direction::SouthWest => self.south_west(),
            Direction::West => self.west(),
            Direction::NorthWest => self.north_west(),
        }
    }

    /// The set moved one rank towards the opponent of `player`.
    pub fn forward(self, player: Player) -> (r: Self)
        ensures r@ =~= shift_set(self@, 0, forward_dr(player)),
    {
        match player {
            Player::White => self.north(),
            Player::Black => self.south(),
        }
    }

    /// The set moved one rank towards `player`'s own side.
    pub fn backward(self, player: Player) -> (r: Self)
        ensures r@ =~= shift_set(self@, 0, -forward_dr(player)),
    {
        match player {
            Player::White => self.south(),
            Player::Black => self.north(),
        }
    }

    /// The set mirrored top to bottom: rank 1 swaps with rank 8, and so on.
    pub fn flip_vertically(self) -> (r: Self)
        ensures forall|t: int| 0 <= t < 64 ==> (r@.contains(t) == self@.contains(#[trigger] flip_square(t))),
    {
        let mut r = Bitboard::empty();
        let mut i: usize = 0;
        while i < 64
            invariant
                i <= 64,
                forall|t: int| 0 <= t < 64 ==> (r@.contains(t) == (flip_square(t) < i && self@.contains(#[trigger] flip_square(t)))),
                forall|t: int| #[trigger] r@.contains(t) ==> 0 <= t < 64,
            decreases 64 - i,
        {
            let sq = Square::from_array_index(i);
            if self.contains(sq) {
                let flipped = Square::from_idxs(i % 8, 7 - i / 8);
                proof {
                    assert(flip_square(flipped@) == i);
                    assert forall|t: int| 0 <= t < 64 && flip_square(t) == i implies t == flipped@ by {}
                }
                r.set_inplace(flipped);
            }
            i = i + 1;
        }
        r
    }

    /// The squares of the set in increasing order.
    pub fn squares(self) -> (v: Vec<Square>)
        ensures
            forall|k: int| 0 <= k < v.len() ==> self@.contains(#[trigger] v[k]@),
            forall|t: int| self@.contains(t) ==> exists|k: int| 0 <= k < v.len() && #[trigger] v[k]@ == t,
            forall|j: int, k: int| 0 <= j < k < v.len() ==> v[j]@ < v[k]@,
    {
        let mut b = self;
        let mut v: Vec<Square> = Vec::new();
        proof { lemma_bits_of_finite(self.0); }
        while b.any()
            invariant
                b@.finite(),
                b@.subset_of(self@),
                forall|k: int| 0 <= k < v.len() ==> self@.contains(#[trigger] v[k]@),
                forall|t: int| self@.contains(t) && !b@.contains(t) ==> exists|k: int| 0 <= k < v.len() && #[trigger] v[k]@ == t,
                forall|j: int, k: int| 0 <= j < k < v.len() ==> v[j]@ < v[k]@,
                forall|k: int, t: int| 0 <= k < v.len() && b@.contains(t) ==> v[k]@ < t,
            decreases b@.len(),
        {
            let ghost old_b = b@;
            let ghost old_v = v@;
            proof { lemma_bits_of_finite(b.0); }
            let s = b.pop_square();
            v.push(s);
            proof {
                assert(old_b.len() >= 1);
                assert forall|t: int| self@.contains(t) && !b@.contains(t) implies exists|k: int| 0 <= k < v.len() && #[trigger] v[k]@ == t by {
                    if t == s@ {
                        assert(v[old_v.len() as int]@ == t);
                    } else {
                        let k = choose|k: int| 0 <= k < old_v.len() && #[trigger] old_v[k]@ == t;
                        assert(v[k]@ == t);
                    }
                }
            }
        }
        v
    }

    /// The number of zero bits below the least square, 64 for the empty set.
    pub fn trailing_zeros(self) -> (r: usize)
        ensures
            r == self.lowest(),
            self@.is_empty() ==> r == 64,
            !self@.is_empty() ==> is_least(self@, r as int),
    {
        proof {
            lemma_zero_iff_no_bits(self.0);
            vstd::std_specs::bits::axiom_u64_trailing_zeros(self.0);
            if self.0 != 0 {
                lemma_trailing_zeros_is_min(self.0);
            }
        }
        self.0.trailing_zeros() as usize
    }
}

impl Square {
    /// The set holding just this square.
    pub fn bb(self) -> (r: Bitboard)
        ensures r@ =~= set![self@],
    {
        let i = self.idx() as u64;
        proof {
            assert forall|t: int| 0 <= t < 64 implies bits_of(1u64 << i).contains(t) == (t == i) by {
                lemma_bit_single(i, t as u64);
            }
        }
        Bitboard(1u64 << i)
    }
}

/// The square drawn at position `p` of a grid of eight rows of eight
/// cells, rank 8 first, cells separated by spaces and rows by newlines.
pub open spec fn grid_square(p: int) -> int {
    (7 - p / 16) * 8 + (p % 16) / 2
}

/// The character at position `p` of a drawn set of squares: `*` for a square
/// in the set, `.` for one not, then a space or, at the end of a row, a newline.
pub open spec fn grid_char(set: Set<int>, p: int) -> char {
    if p % 16 == 15 {
        '\n'
    } else if p % 2 == 1 {
        ' '
    } else if set.contains(grid_square(p)) {
        '*'
    } else {
        '.'
    }
}

/// A set of squares drawn as eight rows, rank 8 first.
pub open spec fn grid_text(set: Set<int>) -> Seq<char> {
    Seq::new(127, |p: int| grid_char(set, p))
}

impl Bitboard {
    /// The squares drawn as eight rows of eight cells, rank 8 first: `*`
    /// for a square in the set and `.` for one not, separated by spaces.
    pub fn to_string(&self) -> (r: String)
        ensures r@ == grid_text(self@),
    {
        let mut r = String::new();
        let mut p: usize = 0;
        while p < 127
            invariant
                p <= 127,
                r@ == Seq::new(p as nat, |q: int| grid_char(self@, q)),
            decreases 127 - p,
        {
            let c = if p % 16 == 15 {
                '\n'
            } else if p % 2 == 1 {
                ' '
            } else if self.contains(Square::from_idxs((p % 16) / 2, 7 - p / 16)) {
                '*'
            } else {
                '.'
            };
            crate::text::push_char(&mut r, c);
            proof {
                assert(r@ =~= Seq::new((p + 1) as nat, |q: int| grid_char(self@, q)));
            }
            p = p + 1;
        }
        r
    }
}

} // verus!
