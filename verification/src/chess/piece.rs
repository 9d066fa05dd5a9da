//! Kinds of pieces, and pieces that belong to a player.

use vstd::prelude::*;
use crate::chess::player::Player;

verus! {

/// The kind of a chess piece.
#[derive(Debug, PartialEq, Eq, Clone, Copy, Structural)]
pub enum PieceKind {
    Pawn,
    Knight,
    Bishop,
    Rook,
    Queen,
    King,
}

/// The kinds of piece that a pawn may promote to.
#[derive(Debug, PartialEq, Eq, Clone, Copy, Structural)]
pub enum PromotionPieceKind {
    Knight,
    Bishop,
    Rook,
    Queen,
}

/// A piece of one player.
#[derive(Debug, PartialEq, Eq, Clone, Copy, Structural)]
pub struct Piece {
    pub player: Player,
    pub kind: PieceKind,
}

impl PieceKind {
    /// The number of kinds of piece.
    pub open spec fn n() -> nat {
        6
    }

    /// The index of the kind into per-kind arrays, in the order
    /// pawn, knight, bishop, rook, queen, king.
    pub open spec fn idx(self) -> int {
        match self {
            PieceKind::Pawn => 0,
            PieceKind::Knight => 1,
            PieceKind::Bishop => 2,
            PieceKind::Rook => 3,
            PieceKind::Queen => 4,
            PieceKind::King => 5,
        }
    }

    /// The kind with the given index.
    pub open spec fn from_idx(i: int) -> PieceKind {
        if i <= 0 {
            PieceKind::Pawn
        } else if i == 1 {
            PieceKind::Knight
        } else if i == 2 {
            PieceKind::Bishop
        } else if i == 3 {
            PieceKind::Rook
        } else if i == 4 {
            PieceKind::Queen
        } else {
            PieceKind::King
        }
    }

    pub fn array_idx(self) -> (r: usize)
        ensures r == self.idx(), r < 6,
    {
        match self {
            PieceKind::Pawn => 0,
            PieceKind::Knight => 1,
            PieceKind::Bishop => 2,
            PieceKind::Rook => 3,
            PieceKind::Queen => 4,
            PieceKind::King => 5,
        }
    }

    pub fn from_array_idx(i: usize) -> (k: PieceKind)
        requires i < 6,
        ensures k.idx() == i, k == PieceKind::from_idx(i as int),
    {
        match i {
            0 => PieceKind::Pawn,
            1 => PieceKind::Knight,
            2 => PieceKind::Bishop,
            3 => PieceKind::Rook,
            4 => PieceKind::Queen,
            _ => PieceKind::King,
        }
    }
}

/// Each kind is the kind with its own index.
pub proof fn lemma_kind_idx(k: PieceKind)
    ensures PieceKind::from_idx(k.idx()) == k, 0 <= k.idx() < 6,
{
}

impl PromotionPieceKind {
    /// The kind of piece that the promotion produces.
    pub open spec fn spec_kind(self) -> PieceKind {
        match self {
            PromotionPieceKind::Knight => PieceKind::Knight,
            PromotionPieceKind::Bishop => PieceKind::Bishop,
            PromotionPieceKind::Rook => PieceKind::Rook,
            PromotionPieceKind::Queen => PieceKind::Queen,
        }
    }

    pub fn kind(self) -> (k: PieceKind)
        ensures k == self.spec_kind(),
    {
        match self {
            PromotionPieceKind::Knight => PieceKind::Knight,
            PromotionPieceKind::Bishop => PieceKind::Bishop,
            PromotionPieceKind::Rook => PieceKind::Rook,
            PromotionPieceKind::Queen => PieceKind::Queen,
        }
    }
}

impl Piece {
    pub fn new(player: Player, kind: PieceKind) -> (p: Piece)
        ensures p.player == player, p.kind == kind,
    {
        Piece { player, kind }
    }
}

} // verus!
