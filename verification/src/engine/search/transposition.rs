//! What the search stores in the transposition table.

use vstd::prelude::*;
use crate::chess::moves::{Move, promotion_of_flags, promotion_flags};
use crate::chess::piece::PromotionPieceKind;
use crate::chess::square::Square;
use crate::engine::eval::player_eval::Eval;
use crate::engine::transposition_table::{TTOverwriteable, TranspositionTable};
use crate::chess::movegen::gen::lemma_move_fields_eq;

verus! {

/// What a stored score says of the true score.
#[derive(Debug, Clone, Copy, PartialEq, Eq, Structural)]
pub enum NodeBound {
    /// The score is exact.
    Exact,
    /// The true score is at most the score.
    Upper,
    /// The true score is at least the score.
    Lower,
}

/// A move as stored in the table: its squares and its promotion.
#[derive(Debug, Clone, Copy)]
pub struct TTMove {
    pub start_square_idx: u8,
    pub end_square_idx: u8,
    pub promotion: Option<PromotionPieceKind>,
}

impl TTMove {
    pub fn from_move(mv: Move) -> (r: Self)
        ensures
            r.start_square_idx == mv.src_spec(),
            r.end_square_idx == mv.dst_spec(),
            r.promotion == promotion_of_flags(mv.flags_spec()),
    {
        TTMove { start_square_idx: mv.src().idx(), end_square_idx: mv.dst().idx(), promotion: mv.promotion() }
    }

    pub fn to_move(&self) -> (r: Move)
        requires self.start_square_idx < 64, self.end_square_idx < 64,
        ensures
            r.src_spec() == self.start_square_idx,
            r.dst_spec() == self.end_square_idx,
            r.flags_spec() == (match self.promotion { Some(p) => promotion_flags(p), None => 0 }),
    {
        Move::new_with_optional_promotion(
            Square::from_index(self.start_square_idx),
            Square::from_index(self.end_square_idx),
            self.promotion,
        )
    }
}

/// A move without capture, castling or en passant flags comes back
/// unchanged from the table.
pub proof fn lemma_tt_move_round_trip(mv: Move, stored: TTMove, back: Move)
    requires
        mv.flags_spec() == 0 || promotion_of_flags(mv.flags_spec()) is Some && mv.flags_spec() % 2 == 0,
        stored.start_square_idx == mv.src_spec(),
        stored.end_square_idx == mv.dst_spec(),
        stored.promotion == promotion_of_flags(mv.flags_spec()),
        back.src_spec() == stored.start_square_idx,
        back.dst_spec() == stored.end_square_idx,
        back.flags_spec() == (match stored.promotion { Some(p) => promotion_flags(p), None => 0 }),
    ensures back == mv,
{
    lemma_move_fields_eq(back, mv);
}

/// The data stored for a searched position.
#[derive(Debug, Clone, Copy)]
pub struct SearchTranspositionTableData {
    pub bound: NodeBound,
    pub eval: Eval,
    pub depth: u8,
    pub age: u8,
    pub best_move: Option<TTMove>,
}

impl TTOverwriteable for SearchTranspositionTableData {
    /// New data replaces old data when it comes from another search, was
    /// searched deeper, or is exact; otherwise only data that is not exact
    /// is replaced.
    open spec fn overwrite_spec(&self, new: &Self) -> bool {
        new.age != self.age || new.depth > self.depth || new.bound == NodeBound::Exact || self.bound != NodeBound::Exact
    }

    fn should_overwrite_with(&self, new: &Self) -> (r: bool) {
        // Always prioritise results from new searches
        if new.age != self.age {
            return true;
        }
        // Always prefer results that have been searched to a higher depth,
        // since they're more accurate
        if new.depth > self.depth {
            return true;
        }
        // If the new node is exact, always store it
        if new.bound == NodeBound::Exact {
            return true;
        }
        // Don't overwrite exact nodes
        self.bound != NodeBound::Exact
    }
}

} // verus!
