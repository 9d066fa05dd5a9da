//! Moves packed into 16 bits.
//!
//! Bits 0 to 5 hold the source square, bits 6 to 11 the destination square,
//! bit 12 is set for captures, bit 13 for promotions, and bits 14 and 15
//! carry further flags: for a promotion they name the piece (00 bishop,
//! 10 knight, 01 rook, 11 queen, reading bit 14 first), and for other moves
//! bit 14 marks castling (without the capture bit) or en passant (with it).

use vstd::prelude::*;
use crate::chess::piece::PromotionPieceKind;
use crate::chess::square::Square;

verus! {

/// A move of a piece from one square to another, with flags.
#[derive(Debug, PartialEq, Eq, Clone, Copy, Structural)]
pub struct Move(pub u16);

pub const CAPTURE_FLAG_BIT: u8 = 0b0001;
pub const PROMOTION_FLAG_BIT: u8 = 0b0010;

/// The flag values of the kinds of move.
pub const QUIET: u8 = 0;
pub const CASTLE: u8 = 4;
pub const CAPTURE: u8 = 1;
pub const EN_PASSANT: u8 = 5;
pub const PROMOTE_TO_BISHOP: u8 = 2;
pub const PROMOTE_TO_KNIGHT: u8 = 10;
pub const PROMOTE_TO_ROOK: u8 = 6;
pub const PROMOTE_TO_QUEEN: u8 = 14;

/// The extra flag bits: `f1` is bit 14 of the move, `f2` bit 15.
pub fn flag_bits(f1: bool, f2: bool) -> (r: u8)
    ensures r == (if f1 { 4int } else { 0int }) + (if f2 { 8int } else { 0int }),
{
    let a: u8 = if f1 { 4 } else { 0 };
    let b: u8 = if f2 { 8 } else { 0 };
    a + b
}

/// The promotion that a flag value encodes.
pub open spec fn promotion_of_flags(flags: int) -> Option<PromotionPieceKind> {
    if flags == 2 || flags == 3 {
        Some(PromotionPieceKind::Bishop)
    } else if flags == 10 || flags == 11 {
        Some(PromotionPieceKind::Knight)
    } else if flags == 6 || flags == 7 {
        Some(PromotionPieceKind::Rook)
    } else if flags == 14 || flags == 15 {
        Some(PromotionPieceKind::Queen)
    } else {
        None
    }
}

/// The flag value of a quiet promotion to the given piece.
pub open spec fn promotion_flags(p: PromotionPieceKind) -> int {
    match p {
        PromotionPieceKind::Bishop => 2,
        PromotionPieceKind::Knight => 10,
        PromotionPieceKind::Rook => 6,
        PromotionPieceKind::Queen => 14,
    }
}

proof fn lemma_pack(src: u16, dst: u16, flags: u16)
    requires src < 64, dst < 64, flags < 16,
    ensures
        (src | (dst << 6u16) | (flags << 12u16)) == src + 64 * dst + 4096 * flags,
{
    assert((src | (dst << 6u16) | (flags << 12u16)) == src + 64 * dst + 4096 * flags) by (bit_vector)
        requires src < 64, dst < 64, flags < 16;
}

proof fn lemma_unpack(x: u16)
    ensures
        x & 0x3fu16 == x % 64,
        (x & 0x0fc0u16) >> 6u16 == (x / 64) % 64,
        x >> 12u16 == x / 4096,
        x & 0x1000u16 == 0x1000u16 <==> (x / 4096) % 2 == 1,
        x & 0x2000u16 == 0x2000u16 <==> (x / 8192) % 2 == 1,
{
    assert(x & 0x3fu16 == x % 64) by (bit_vector);
    assert((x & 0x0fc0u16) >> 6u16 == (x / 64) % 64) by (bit_vector);
    assert(x >> 12u16 == x / 4096) by (bit_vector);
    assert(x & 0x1000u16 == 0x1000u16 <==> (x / 4096) % 2 == 1) by (bit_vector);
    assert(x & 0x2000u16 == 0x2000u16 <==> (x / 8192) % 2 == 1) by (bit_vector);
}

impl Move {
    /// The source square of the move.
    pub open spec fn src_spec(self) -> int {
        (self.0 % 64) as int
    }

    /// The destination square of the move.
    pub open spec fn dst_spec(self) -> int {
        ((self.0 / 64) % 64) as int
    }

    /// The flag value of the move, 0 to 15.
    pub open spec fn flags_spec(self) -> int {
        (self.0 / 4096) as int
    }

    /// The move whose fields are the given ones.
    pub open spec fn packed(src: int, dst: int, flags: int) -> Move {
        Move((src + 64 * dst + 4096 * flags) as u16)
    }

    fn with_flags(src: Square, dst: Square, flags: u8) -> (m: Self)
        requires flags < 16,
        ensures
            m.src_spec() == src@,
            m.dst_spec() == dst@,
            m.flags_spec() == flags,
            m == Move::packed(src@, dst@, flags as int),
    {
        let s = src.idx() as u16;
        let d = dst.idx() as u16;
        let f = flags as u16;
        proof { lemma_pack(s, d, f); }
        Move(s | (d << 6u16) | (f << 12u16))
    }

    /// A move with no capture, promotion or castling.
    pub fn quiet(src: Square, dst: Square) -> (m: Self)
        ensures m.src_spec() == src@, m.dst_spec() == dst@, m.flags_spec() == 0,
    {
        Self::with_flags(src, dst, QUIET)
    }

    /// A move from one square to another with no flags: the board says what it does.
    pub fn new(src: Square, dst: Square) -> (m: Self)
        ensures m.src_spec() == src@, m.dst_spec() == dst@, m.flags_spec() == 0,
    {
        Self::quiet(src, dst)
    }

    pub fn capture(src: Square, dst: Square) -> (m: Self)
        ensures m.src_spec() == src@, m.dst_spec() == dst@, m.flags_spec() == 1,
    {
        Self::with_flags(src, dst, CAPTURE)
    }

    pub fn castles(src: Square, dst: Square) -> (m: Self)
        ensures m.src_spec() == src@, m.dst_spec() == dst@, m.flags_spec() == 4,
    {
        Self::with_flags(src, dst, CASTLE)
    }

    pub fn en_passant(src: Square, dst: Square) -> (m: Self)
        ensures m.src_spec() == src@, m.dst_spec() == dst@, m.flags_spec() == 5,
    {
        Self::with_flags(src, dst, EN_PASSANT)
    }

    pub fn quiet_promotion(src: Square, dst: Square, promotion: PromotionPieceKind) -> (m: Self)
        ensures
            m.src_spec() == src@,
            m.dst_spec() == dst@,
            m.flags_spec() == promotion_flags(promotion),
    {
        Self::with_flags(
            src,
            dst,
            match promotion {
                PromotionPieceKind::Bishop => PROMOTE_TO_BISHOP,
                PromotionPieceKind::Knight => PROMOTE_TO_KNIGHT,
                PromotionPieceKind::Rook => PROMOTE_TO_ROOK,
                PromotionPieceKind::Queen => PROMOTE_TO_QUEEN,
            },
        )
    }

    pub fn capture_promotion(src: Square, dst: Square, promotion: PromotionPieceKind) -> (m: Self)
        ensures
            m.src_spec() == src@,
            m.dst_spec() == dst@,
            m.flags_spec() == promotion_flags(promotion) + 1,
    {
        Self::with_flags(
            src,
            dst,
            match promotion {
                PromotionPieceKind::Bishop => PROMOTE_TO_BISHOP + CAPTURE_FLAG_BIT,
                PromotionPieceKind::Knight => PROMOTE_TO_KNIGHT + CAPTURE_FLAG_BIT,
                PromotionPieceKind::Rook => PROMOTE_TO_ROOK + CAPTURE_FLAG_BIT,
                PromotionPieceKind::Queen => PROMOTE_TO_QUEEN + CAPTURE_FLAG_BIT,
            },
        )
    }

    /// A move with an optional promotion and no other flags.
    pub fn new_with_optional_promotion(src: Square, dst: Square, promotion: Option<PromotionPieceKind>) -> (m: Self)
        ensures
            m.src_spec() == src@,
            m.dst_spec() == dst@,
            promotion_of_flags(m.flags_spec()) == promotion,
            m.flags_spec() % 2 == 0,
            m.flags_spec() == (match promotion { Some(p) => promotion_flags(p), None => 0 }),
    {
        match promotion {
            Some(p) => Self::quiet_promotion(src, dst, p),
            None => Self::quiet(src, dst),
        }
    }

    /// The 16 bits of the move.
    pub fn data(self) -> (r: u16)
        ensures r == self.0,
    {
        self.0
    }

    /// The move with the given 16 bits.
    pub fn from_data(data: u16) -> (m: Self)
        ensures m.data_spec() == data,
    {
        Move(data)
    }

    pub open spec fn data_spec(self) -> u16 {
        self.0
    }

    pub fn src(self) -> (s: Square)
        ensures s@ == self.src_spec(),
    {
        proof { lemma_unpack(self.0); }
        Square::from_index((self.0 & 0x3fu16) as u8)
    }

    pub fn dst(self) -> (s: Square)
        ensures s@ == self.dst_spec(),
    {
        proof { lemma_unpack(self.0); }
        Square::from_index(((self.0 & 0x0fc0u16) >> 6u16) as u8)
    }

    fn flags(self) -> (f: u8)
        ensures f == self.flags_spec(), f < 16,
    {
        proof { lemma_unpack(self.0); }
        (self.0 >> 12u16) as u8
    }

    pub fn is_capture(self) -> (r: bool)
        ensures r == (self.flags_spec() % 2 == 1),
    {
        proof { lemma_unpack(self.0); }
        (self.0 & 0x1000u16) == 0x1000u16
    }

    pub fn is_promotion(self) -> (r: bool)
        ensures r == ((self.flags_spec() / 2) % 2 == 1),
    {
        proof { lemma_unpack(self.0); }
        (self.0 & 0x2000u16) == 0x2000u16
    }

    pub fn promotion(self) -> (r: Option<PromotionPieceKind>)
        ensures r == promotion_of_flags(self.flags_spec()),
    {
        match self.flags() {
            2 | 3 => Some(PromotionPieceKind::Bishop),
            10 | 11 => Some(PromotionPieceKind::Knight),
            6 | 7 => Some(PromotionPieceKind::Rook),
            14 | 15 => Some(PromotionPieceKind::Queen),
            _ => None,
        }
    }

    pub fn is_en_passant(self) -> (r: bool)
        ensures r == (self.flags_spec() == 5),
    {
        self.flags() == EN_PASSANT
    }

    pub fn is_castling(self) -> (r: bool)
        ensures r == (self.flags_spec() == 4),
    {
        self.flags() == CASTLE
    }
}

/// A move's source, destination and flags are the ones it was built from.
pub proof fn lemma_packed_fields(src: int, dst: int, flags: int)
    requires 0 <= src < 64, 0 <= dst < 64, 0 <= flags < 16,
    ensures
        Move::packed(src, dst, flags).src_spec() == src,
        Move::packed(src, dst, flags).dst_spec() == dst,
        Move::packed(src, dst, flags).flags_spec() == flags,
{
    let x = src + 64 * dst + 4096 * flags;
    assert(x % 64 == src) by (nonlinear_arith)
        requires x == src + 64 * dst + 4096 * flags, 0 <= src < 64, 0 <= dst < 64, 0 <= flags < 16;
    assert((x / 64) % 64 == dst) by (nonlinear_arith)
        requires x == src + 64 * dst + 4096 * flags, 0 <= src < 64, 0 <= dst < 64, 0 <= flags < 16;
    assert(x / 4096 == flags) by (nonlinear_arith)
        requires x == src + 64 * dst + 4096 * flags, 0 <= src < 64, 0 <= dst < 64, 0 <= flags < 16;
}

/// Every set of moves is finite: a move is one of 65536 values.
pub proof fn lemma_move_sets_finite(s: Set<Move>)
    ensures s.finite(),
{
    let range = vstd::set_lib::set_int_range(0, 65536);
    let all = range.map(|i: int| Move(i as u16));
    vstd::set_lib::lemma_int_range(0, 65536);
    range.lemma_map_finite(|i: int| Move(i as u16));
    assert forall|m: Move| s.contains(m) implies all.contains(m) by {
        assert(range.contains(m.0 as int));
        assert(Move((m.0 as int) as u16) == m);
    }
    vstd::set_lib::lemma_set_subset_finite(all, s);
}

} // verus!
