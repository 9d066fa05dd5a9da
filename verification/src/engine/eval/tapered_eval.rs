//! Evaluations with a midgame and an endgame component, packed into one
//! `i32`, and the blend of the two by the phase of the game.

use vstd::prelude::*;
use crate::chess::board::{Board, board_sum};
use crate::chess::piece::Piece;
use crate::chess::piece::PieceKind;
use crate::chess::square::Square;
use crate::engine::eval::white_eval::WhiteEval;

verus! {

/// A midgame and an endgame evaluation, packed as `endgame * 65536 + midgame`.
#[derive(Debug, PartialEq, Eq, PartialOrd, Ord, Clone, Copy)]
pub struct PhasedEval(pub i32);

/// The midgame component of a packed value: its low 16 bits, read as an `i16`.
pub open spec fn mg_of(x: int) -> int {
    (x + 32768) % 65536 - 32768
}

/// The endgame component of a packed value.
pub open spec fn eg_of(x: int) -> int {
    (x + 32768) / 65536
}

/// Every packed value is its endgame component times 65536 plus its midgame one.
pub proof fn lemma_decode(x: int)
    ensures
        x == eg_of(x) * 65536 + mg_of(x),
        -32768 <= mg_of(x) < 32768,
{
    vstd::arithmetic::div_mod::lemma_fundamental_div_mod(x + 32768, 65536);
}

/// Packing a pair and decoding it gives the pair back.
pub proof fn lemma_encode(mg: int, eg: int)
    requires -32768 <= mg < 32768,
    ensures mg_of(eg * 65536 + mg) == mg, eg_of(eg * 65536 + mg) == eg,
{
    vstd::arithmetic::div_mod::lemma_fundamental_div_mod_converse(eg * 65536 + mg + 32768, 65536, eg, mg + 32768);
}

/// Packed values add componentwise while the midgame sum stays in range.
pub proof fn lemma_add(x: int, y: int)
    requires -32768 <= mg_of(x) + mg_of(y) < 32768,
    ensures
        mg_of(x + y) == mg_of(x) + mg_of(y),
        eg_of(x + y) == eg_of(x) + eg_of(y),
{
    lemma_decode(x);
    lemma_decode(y);
    assert(x + y == (eg_of(x) + eg_of(y)) * 65536 + (mg_of(x) + mg_of(y)));
    lemma_encode(mg_of(x) + mg_of(y), eg_of(x) + eg_of(y));
}

/// Packed values subtract componentwise while the midgame difference stays in range.
pub proof fn lemma_sub(x: int, y: int)
    requires -32768 <= mg_of(x) - mg_of(y) < 32768,
    ensures
        mg_of(x - y) == mg_of(x) - mg_of(y),
        eg_of(x - y) == eg_of(x) - eg_of(y),
{
    lemma_decode(x);
    lemma_decode(y);
    assert(x - y == (eg_of(x) - eg_of(y)) * 65536 + (mg_of(x) - mg_of(y)));
    lemma_encode(mg_of(x) - mg_of(y), eg_of(x) - eg_of(y));
}

impl PhasedEval {
    /// The midgame component.
    pub open spec fn mg(self) -> int {
        mg_of(self.0 as int)
    }

    /// The endgame component.
    pub open spec fn eg(self) -> int {
        eg_of(self.0 as int)
    }

    /// The zero evaluation.
    pub fn zero() -> (r: Self)
        ensures r.0 == 0, r.mg() == 0, r.eg() == 0,
    {
        PhasedEval(0)
    }

    /// The packed pair; it fits when the endgame component is above the
    /// least value or the midgame one is not negative.
    pub fn new(midgame: i16, endgame: i16) -> (r: Self)
        requires !(endgame == i16::MIN && midgame < 0),
        ensures r.mg() == midgame, r.eg() == endgame, r.0 == endgame * 65536 + midgame,
    {
        proof { lemma_encode(midgame as int, endgame as int); }
        PhasedEval(((endgame as i32) * 65536) + midgame as i32)
    }

    /// A value with the same midgame and endgame component (which fits for
    /// every value but the least).
    pub fn uniform(v: i16) -> (r: Self)
        requires v > i16::MIN,
        ensures r.mg() == v, r.eg() == v,
    {
        Self::new(v, v)
    }

    pub fn midgame(self) -> (r: WhiteEval)
        ensures r.0 == self.mg(),
    {
        proof {
            let x = self.0;
            assert((x as i16) as int == (x + 32768) % 65536 - 32768) by (bit_vector);
        }
        WhiteEval(self.0 as i16)
    }

    pub fn endgame(self) -> (r: WhiteEval)
        requires self.0 <= i32::MAX - 0x8000,
        ensures r.0 == self.eg(),
    {
        let y: i32 = self.0 + 0x8000;
        let e: i32 = y >> 16i32;
        proof {
            lemma_decode(self.0 as int);
            assert(e == y >> 16i32 ==> e as int == y / 65536) by (bit_vector);
        }
        WhiteEval(e as i16)
    }

    pub fn add(self, rhs: Self) -> (r: Self)
        requires i32::MIN <= self.0 + rhs.0 <= i32::MAX,
        ensures r.0 == self.0 + rhs.0,
    {
        PhasedEval(self.0 + rhs.0)
    }

    pub fn add_assign(&mut self, rhs: Self)
        requires i32::MIN <= old(self).0 + rhs.0 <= i32::MAX,
        ensures final(self).0 == old(self).0 + rhs.0,
    {
        self.0 = self.0 + rhs.0;
    }

    pub fn sub(self, rhs: Self) -> (r: Self)
        requires i32::MIN <= self.0 - rhs.0 <= i32::MAX,
        ensures r.0 == self.0 - rhs.0,
    {
        PhasedEval(self.0 - rhs.0)
    }

    pub fn sub_assign(&mut self, rhs: Self)
        requires i32::MIN <= old(self).0 - rhs.0 <= i32::MAX,
        ensures final(self).0 == old(self).0 - rhs.0,
    {
        self.0 = self.0 - rhs.0;
    }

    /// The negation, saturating at the most positive value.
    pub open spec fn neg_spec(self) -> Self {
        PhasedEval(if self.0 == i32::MIN { i32::MAX } else { (-self.0) as i32 })
    }

    /// The negated value; the most negative value maps to the most positive.
    pub fn neg(self) -> (r: Self)
        ensures r == self.neg_spec(),
    {
        PhasedEval(if self.0 == i32::MIN { i32::MAX } else { -self.0 })
    }
}

/// How much a piece of the kind counts towards the phase of the game.
pub open spec fn phase_contribution(kind: PieceKind) -> int {
    match kind {
        PieceKind::Pawn | PieceKind::King => 0,
        PieceKind::Knight | PieceKind::Bishop => 1,
        PieceKind::Rook => 2,
        PieceKind::Queen => 4,
    }
}

/// The phase contribution of a piece, as a term of a board sum.
pub open spec fn phase_term() -> spec_fn(int, Piece) -> int {
    |s: int, p: Piece| phase_contribution(p.kind)
}

/// The sum of the phase contributions of the pieces on the first `n` squares.
pub open spec fn phase_sum(board: Board, n: int) -> int {
    board_sum(board, phase_term(), n)
}

pub proof fn lemma_phase_sum_bounds(board: Board, n: int)
    requires n <= 64,
    ensures 0 <= phase_sum(board, n) <= 4 * (if n < 0 { 0 } else { n }),
    decreases n,
{
    if n > 0 {
        lemma_phase_sum_bounds(board, n - 1);
    }
}

pub fn piece_phase_value_contribution(kind: PieceKind) -> (r: i16)
    ensures r == phase_contribution(kind),
{
    match kind {
        PieceKind::Pawn | PieceKind::King => 0,
        PieceKind::Knight | PieceKind::Bishop => 1,
        PieceKind::Rook => 2,
        PieceKind::Queen => 4,
    }
}

/// The phase of the board: the sum of the contributions of all its pieces.
pub fn phase_value(board: &Board) -> (v: i16)
    ensures v == phase_sum(*board, 64),
{
    let mut v: i16 = 0;
    let mut idx: usize = 0;
    while idx < 64
        invariant
            idx <= 64,
            v == phase_sum(*board, idx as int),
        decreases 64 - idx,
    {
        proof { lemma_phase_sum_bounds(*board, idx as int + 1); }
        let square = Square::from_array_index(idx);
        if let Some(piece) = board.piece_at(square) {
            v = v + piece_phase_value_contribution(piece.kind);
        }
        idx = idx + 1;
    }
    v
}

/// The phase value at which an evaluation counts entirely as midgame.
pub const PHASE_COUNT_MAX: i64 = 24;

/// Integer division rounding towards zero, as Rust's `/` does.
pub open spec fn trunc_div(a: int, b: int) -> int {
    if a >= 0 { a / b } else { -((-a) / b) }
}

/// The blend of midgame and endgame for the given phase.
pub open spec fn taper_spec(phase_value: int, mg: int, eg: int) -> int {
    let midgame_phase = if phase_value < 24 { phase_value } else { 24 };
    let endgame_phase = 24 - phase_value;
    trunc_div(mg * midgame_phase + eg * endgame_phase, 24)
}

/// The taper of a packed evaluation: with all pieces on (phase 24) it is
/// the midgame component, with none (phase 0) the endgame component, and in
/// between it lies between the two.
pub proof fn law_taper_ends(phase: int, e: PhasedEval)
    ensures
        taper_spec(24, e.mg(), e.eg()) == e.mg(),
        taper_spec(0, e.mg(), e.eg()) == e.eg(),
        0 <= phase <= 24 ==> {
            let lo = if e.mg() < e.eg() { e.mg() } else { e.eg() };
            let hi = if e.mg() < e.eg() { e.eg() } else { e.mg() };
            lo <= taper_spec(phase, e.mg(), e.eg()) <= hi
        },
{
    let mg = e.mg();
    let eg = e.eg();
    assert(trunc_div(mg * 24 + eg * 0, 24) == mg) by (nonlinear_arith);
    assert(trunc_div(mg * 0 + eg * 24, 24) == eg) by (nonlinear_arith);
    if 0 <= phase <= 24 {
        let lo = if mg < eg { mg } else { eg };
        let hi = if mg < eg { eg } else { mg };
        let x = mg * phase + eg * (24 - phase);
        assert(lo * 24 <= x <= hi * 24) by (nonlinear_arith)
            requires lo <= mg <= hi, lo <= eg <= hi, 0 <= phase <= 24, x == mg * phase + eg * (24 - phase);
        assert(lo <= trunc_div(x, 24) <= hi) by (nonlinear_arith)
            requires lo * 24 <= x <= hi * 24;
    }
}

/// The evaluation blended between its midgame and endgame components by the
/// phase of the game: all midgame at phase 24, all endgame at phase 0.
pub fn taper(phase_value: i16, eval: PhasedEval) -> (r: WhiteEval)
    requires
        eval.0 <= i32::MAX - 0x8000,
        i16::MIN <= taper_spec(phase_value as int, eval.mg(), eval.eg()) <= i16::MAX,
    ensures
        r.0 == taper_spec(phase_value as int, eval.mg(), eval.eg()),
        phase_value == 24 ==> r.0 == eval.mg(),
        phase_value == 0 ==> r.0 == eval.eg(),
{
    proof { law_taper_ends(phase_value as int, eval); }
    // Switch to 64 bit calculations to avoid overflow
    let phase_value = phase_value as i64;

    let midgame_phase_value = if phase_value < PHASE_COUNT_MAX { phase_value } else { PHASE_COUNT_MAX };
    let endgame_phase_value = PHASE_COUNT_MAX - phase_value;

    let midgame_eval = eval.midgame().0 as i64;
    let endgame_eval = eval.endgame().0 as i64;

    proof {
        assert(-32768 * 32768 <= midgame_eval * midgame_phase_value <= 32768 * 32768) by (nonlinear_arith)
            requires -32768 <= midgame_eval <= 32768, -32768 <= midgame_phase_value <= 32768;
        assert(-32768 * 65536 <= endgame_eval * endgame_phase_value <= 32768 * 65536) by (nonlinear_arith)
            requires -32768 <= endgame_eval <= 32768, -32768 <= endgame_phase_value <= 65536;
    }
    let eval = (midgame_eval * midgame_phase_value + endgame_eval * endgame_phase_value) / 24;
    WhiteEval(eval as i16)
}

/// The blend of `taper` before it is narrowed to an evaluation.
pub fn taper_wide(phase_value: i16, eval: PhasedEval) -> (r: i64)
    requires eval.0 <= i32::MAX - 0x8000,
    ensures
        r == taper_spec(phase_value as int, eval.mg(), eval.eg()),
        phase_value == 24 ==> r == eval.mg(),
        phase_value == 0 ==> r == eval.eg(),
{
    proof { law_taper_ends(phase_value as int, eval); }
    let phase_value = phase_value as i64;
    let midgame_phase_value = if phase_value < PHASE_COUNT_MAX { phase_value } else { PHASE_COUNT_MAX };
    let endgame_phase_value = PHASE_COUNT_MAX - phase_value;
    let midgame_eval = eval.midgame().0 as i64;
    let endgame_eval = eval.endgame().0 as i64;
    proof {
        assert(-32768 * 32768 <= midgame_eval * midgame_phase_value <= 32768 * 32768) by (nonlinear_arith)
            requires -32768 <= midgame_eval <= 32768, -32768 <= midgame_phase_value <= 32768;
        assert(-32768 * 65536 <= endgame_eval * endgame_phase_value <= 32768 * 65536) by (nonlinear_arith)
            requires -32768 <= endgame_eval <= 32768, -32768 <= endgame_phase_value <= 65536;
    }
    (midgame_eval * midgame_phase_value + endgame_eval * endgame_phase_value) / 24
}

/// A value limited to the range of `i16`.
pub open spec fn clamp_i16(v: int) -> int {
    if v < i16::MIN { i16::MIN as int } else if v > i16::MAX { i16::MAX as int } else { v }
}

/// The blend of `taper`, limited to the range of an evaluation where the
/// phase lies beyond the end of the scale and the blend leaves it.
pub fn taper_clamped(phase_value: i16, eval: PhasedEval) -> (r: WhiteEval)
    requires eval.0 <= i32::MAX - 0x8000,
    ensures
        r.0 == clamp_i16(taper_spec(phase_value as int, eval.mg(), eval.eg())),
        phase_value == 24 ==> r.0 == clamp_i16(eval.mg()),
        phase_value == 0 ==> r.0 == clamp_i16(eval.eg()),
{
    proof { law_taper_ends(phase_value as int, eval); }
    let phase_value = phase_value as i64;
    let midgame_phase_value = if phase_value < PHASE_COUNT_MAX { phase_value } else { PHASE_COUNT_MAX };
    let endgame_phase_value = PHASE_COUNT_MAX - phase_value;
    let midgame_eval = eval.midgame().0 as i64;
    let endgame_eval = eval.endgame().0 as i64;
    proof {
        assert(-32768 * 32768 <= midgame_eval * midgame_phase_value <= 32768 * 32768) by (nonlinear_arith)
            requires -32768 <= midgame_eval <= 32768, -32768 <= midgame_phase_value <= 32768;
        assert(-32768 * 65536 <= endgame_eval * endgame_phase_value <= 32768 * 65536) by (nonlinear_arith)
            requires -32768 <= endgame_eval <= 32768, -32768 <= endgame_phase_value <= 65536;
    }
    let eval = (midgame_eval * midgame_phase_value + endgame_eval * endgame_phase_value) / 24;
    if eval < -32768 {
        WhiteEval(i16::MIN)
    } else if eval > 32767 {
        WhiteEval(i16::MAX)
    } else {
        WhiteEval(eval as i16)
    }
}

} // verus!
