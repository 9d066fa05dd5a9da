//! Evaluations from the point of view of the player to move.

use vstd::prelude::*;
use crate::chess::player::Player;
use crate::engine::eval::white_eval::WhiteEval;

verus! {

/// An evaluation from the point of view of the player to move, so that
/// negamax can have both players maximise. Mate scores lie near the ends
/// of the range: a mate in `n` plies scores `MATE - n`.
#[derive(Debug, PartialEq, Eq, PartialOrd, Ord, Clone, Copy)]
pub struct Eval(pub i16);

/// The negation of an `i16` value, the least value mapping to the greatest.
pub open spec fn negated(v: int) -> int {
    if v == i16::MIN { i16::MAX as int } else { -v }
}

/// A value seen from the other point of view when `player` is Black.
pub open spec fn seen_by(v: int, player: Player) -> int {
    if player == Player::White { v } else { negated(v) }
}

/// The score of giving mate now.
pub const MATE: i16 = 32000;

/// Scores beyond this (in absolute value) are mate scores.
pub const MATE_THRESHOLD: i16 = 31900;

impl Eval {
    /// The greatest evaluation.
    pub fn max() -> (r: Self)
        ensures r.0 == i16::MAX,
    {
        Eval(i16::MAX)
    }

    /// The least evaluation.
    pub fn min() -> (r: Self)
        ensures r.0 == i16::MIN,
    {
        Eval(i16::MIN)
    }

    /// The evaluation of a drawn position.
    pub fn draw() -> (r: Self)
        ensures r.0 == 0,
    {
        Eval(0)
    }

    /// The score of giving mate in `ply` plies.
    pub fn mate_in(ply: u8) -> (r: Self)
        ensures r.0 == MATE - ply,
    {
        Eval(MATE - ply as i16)
    }

    /// The score of being mated in `ply` plies.
    pub fn mated_in(ply: u8) -> (r: Self)
        ensures r.0 == -MATE + ply,
    {
        Eval(-MATE + ply as i16)
    }

    /// Whether the evaluation is a mate score.
    pub open spec fn is_mate_spec(self) -> bool {
        self.0 > MATE_THRESHOLD || self.0 < -MATE_THRESHOLD
    }

    /// For a mate score, the number of moves to the mate: positive when the
    /// player to move mates, negative when it is mated.
    pub fn is_mate_in_moves(self) -> (r: Option<i16>)
        ensures
            self.0 > MATE_THRESHOLD ==> r == Some(crate::engine::eval::tapered_eval::trunc_div(MATE - self.0 + 1, 2) as i16),
            self.0 < -MATE_THRESHOLD ==> r == Some(crate::engine::eval::tapered_eval::trunc_div(-MATE - self.0, 2) as i16),
            -MATE_THRESHOLD <= self.0 <= MATE_THRESHOLD ==> r is None,
    {
        if self.0 > MATE_THRESHOLD {
            let d = MATE - self.0 + 1;
            return Some(if d >= 0 { d / 2 } else { -((-d) / 2) });
        }
        if self.0 < -MATE_THRESHOLD {
            // Division rounds towards zero.
            let d = -MATE - self.0;
            return Some(if d >= 0 { d / 2 } else { -((-d) / 2) });
        }
        None
    }

    /// The evaluation from White's point of view.
    pub fn to_white_eval(self, player: Player) -> (r: WhiteEval)
        ensures r.0 == seen_by(self.0 as int, player),
    {
        match player {
            Player::White => WhiteEval(self.0),
            Player::Black => WhiteEval(self.0).neg(),
        }
    }

    /// The evaluation from the point of view of `player`.
    pub fn from_white_eval(eval: WhiteEval, player: Player) -> (r: Self)
        ensures r.0 == seen_by(eval.0 as int, player),
    {
        match player {
            Player::White => Eval(eval.0),
            Player::Black => Eval(eval.neg().0),
        }
    }

    pub fn add(self, rhs: Self) -> (r: Self)
        requires i16::MIN <= self.0 + rhs.0 <= i16::MAX,
        ensures r.0 == self.0 + rhs.0,
    {
        Eval(self.0 + rhs.0)
    }

    pub fn sub(self, rhs: Self) -> (r: Self)
        requires i16::MIN <= self.0 - rhs.0 <= i16::MAX,
        ensures r.0 == self.0 - rhs.0,
    {
        Eval(self.0 - rhs.0)
    }

    pub fn mul(self, rhs: i16) -> (r: Self)
        requires i16::MIN <= self.0 * rhs <= i16::MAX,
        ensures r.0 == self.0 * rhs,
    {
        Eval(self.0 * rhs)
    }

    /// The evaluation for the other player; the least value maps to the greatest.
    pub fn neg(self) -> (r: Self)
        ensures r.0 == negated(self.0 as int),
    {
        Eval(if self.0 == i16::MIN { i16::MAX } else { -self.0 })
    }
}

/// A value limited to the range of an evaluation.
pub open spec fn saturate(v: int) -> int {
    if v < i16::MIN { i16::MIN as int } else if v > i16::MAX { i16::MAX as int } else { v }
}

/// A mate score counted from a position `plies` below the root, as counted
/// from the position itself: further from the mate by the plies. Other
/// scores are unchanged.
pub open spec fn from_position_spec(v: int, plies: int) -> int {
    if v > MATE_THRESHOLD { saturate(v + plies) } else if v < -MATE_THRESHOLD { saturate(v - plies) } else { v }
}

/// A mate score counted from a position, as counted from the root `plies`
/// above it. Other scores are unchanged.
pub open spec fn from_root_spec(v: int, plies: int) -> int {
    if v > MATE_THRESHOLD { saturate(v - plies) } else if v < -MATE_THRESHOLD { saturate(v + plies) } else { v }
}

impl Eval {
    /// The score to store for a position `plies` below the root.
    pub fn with_mate_distance_from_position(self, plies: u8) -> (r: Self)
        ensures r.0 == from_position_spec(self.0 as int, plies as int),
    {
        let v = self.0 as i32;
        let p = plies as i32;
        let w = if self.0 > MATE_THRESHOLD { v + p } else if self.0 < -MATE_THRESHOLD { v - p } else { v };
        Eval(if w < -32768 { i16::MIN } else if w > 32767 { i16::MAX } else { w as i16 })
    }

    /// The score read back for a position `plies` below the root.
    pub fn with_mate_distance_from_root(self, plies: u8) -> (r: Self)
        ensures r.0 == from_root_spec(self.0 as int, plies as int),
    {
        let v = self.0 as i32;
        let p = plies as i32;
        let w = if self.0 > MATE_THRESHOLD { v - p } else if self.0 < -MATE_THRESHOLD { v + p } else { v };
        Eval(if w < -32768 { i16::MIN } else if w > 32767 { i16::MAX } else { w as i16 })
    }
}

/// Storing a score and reading it back at the same depth gives it back,
/// unless the stored value would leave the range of an evaluation.
pub proof fn lemma_mate_distance_round_trip(v: int, plies: int)
    requires
        0 <= plies <= 255,
        i16::MIN + 255 <= v <= i16::MAX - 255,
    ensures from_root_spec(from_position_spec(v, plies), plies) == v,
{
}

/// Turning an evaluation to White's point of view and back gives it back,
/// for every value but the least, which Black sees as the greatest.
pub proof fn lemma_white_eval_round_trip(v: i16, player: Player)
    requires v != i16::MIN,
    ensures seen_by(seen_by(v as int, player), player) == v,
{
}

} // verus!
