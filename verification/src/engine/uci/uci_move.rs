//! Moves as UCI writes them: source square, destination square and an
//! optional promotion letter.

use vstd::prelude::*;
use crate::chess::moves::{Move, promotion_of_flags};
use crate::chess::piece::PromotionPieceKind;
use crate::chess::square::{Square, square_name};
use crate::text::push_char;

verus! {

/// A move as the UCI protocol names it.
#[derive(Debug, Clone, Copy, PartialEq, Eq, Structural)]
pub struct UciMove {
    pub src: Square,
    pub dst: Square,
    pub promotion: Option<PromotionPieceKind>,
}

/// The lowercase letter of a promotion in UCI.
pub open spec fn uci_promotion_letter(p: PromotionPieceKind) -> char {
    match p {
        PromotionPieceKind::Knight => 'n',
        PromotionPieceKind::Bishop => 'b',
        PromotionPieceKind::Rook => 'r',
        PromotionPieceKind::Queen => 'q',
    }
}

/// The UCI name of a move: both squares, then the promotion letter if any.
pub open spec fn uci_notation(m: UciMove) -> Seq<char> {
    square_name(m.src@) + square_name(m.dst@) + match m.promotion {
        Some(p) => seq![uci_promotion_letter(p)],
        None => Seq::empty(),
    }
}

impl UciMove {
    pub fn new(src: Square, dst: Square) -> (r: Self)
        ensures r.src == src, r.dst == dst, r.promotion is None,
    {
        UciMove { src, dst, promotion: None }
    }

    pub fn new_with_promotion(src: Square, dst: Square, promotion: PromotionPieceKind) -> (r: Self)
        ensures r.src == src, r.dst == dst, r.promotion == Some(promotion),
    {
        UciMove { src, dst, promotion: Some(promotion) }
    }

    /// The UCI name of the move, such as `e7e8q`.
    pub fn notation(&self) -> (r: String)
        ensures r@ == uci_notation(*self),
    {
        let mut r = self.src.notation();
        crate::text::push_str(&mut r, self.dst.notation().as_str());
        let ghost squares = r@;
        if let Some(p) = self.promotion {
            push_char(&mut r, match p {
                PromotionPieceKind::Knight => 'n',
                PromotionPieceKind::Bishop => 'b',
                PromotionPieceKind::Rook => 'r',
                PromotionPieceKind::Queen => 'q',
            });
        }
        proof {
            if self.promotion is None {
                assert(r@ =~= squares + Seq::<char>::empty());
            }
        }
        r
    }

    /// The UCI name of a move.
    pub fn from_move(mv: Move) -> (r: Self)
        ensures
            r.src@ == mv.src_spec(),
            r.dst@ == mv.dst_spec(),
            r.promotion == promotion_of_flags(mv.flags_spec()),
    {
        UciMove { src: mv.src(), dst: mv.dst(), promotion: mv.promotion() }
    }
}

} // verus!
