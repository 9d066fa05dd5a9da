//! The two sides of a chess game.

use vstd::prelude::*;

verus! {

/// One of the two players.
#[derive(Debug, PartialEq, Eq, Clone, Copy, Structural)]
pub enum Player {
    White,
    Black,
}

impl Player {
    /// The number of players.
    pub open spec fn n() -> nat {
        2
    }

    /// The index of the player into per-player arrays: White is 0, Black is 1.
    pub open spec fn idx(self) -> int {
        match self {
            Player::White => 0,
            Player::Black => 1,
        }
    }

    /// The opposing player.
    pub open spec fn opponent(self) -> Player {
        match self {
            Player::White => Player::Black,
            Player::Black => Player::White,
        }
    }

    /// The opponent of this player.
    pub fn other(self) -> (r: Self)
        ensures
            r == self.opponent(),
            r != self,
    {
        match self {
            Player::White => Player::Black,
            Player::Black => Player::White,
        }
    }

    /// The index of this player into arrays holding one entry per player.
    pub fn array_idx(self) -> (r: usize)
        ensures
            r == self.idx(),
            r < 2,
    {
        match self {
            Player::White => 0,
            Player::Black => 1,
        }
    }

    /// Whether this is the white player.
    pub fn is_white(self) -> (r: bool)
        ensures r == (self == Player::White),
    {
        match self {
            Player::White => true,
            Player::Black => false,
        }
    }
}

/// Players chosen at compile time: the implementing marker types stand for
/// one player each.
pub trait PlayerT {
    /// The player that this type stands for.
    fn player() -> (r: Player);

    /// Whether this type stands for White.
    fn is_white() -> (r: bool);
}

/// The white player, as a type.
pub struct White;

/// The black player, as a type.
pub struct Black;

impl PlayerT for White {
    fn player() -> (r: Player)
        ensures r == Player::White,
    {
        Player::White
    }

    fn is_white() -> (r: bool)
        ensures r == true,
    {
        true
    }
}

impl PlayerT for Black {
    fn player() -> (r: Player)
        ensures r == Player::Black,
    {
        Player::Black
    }

    fn is_white() -> (r: bool)
        ensures r == false,
    {
        false
    }
}

/// The opponent of the opponent is the player itself.
pub proof fn lemma_other_involutive(p: Player)
    ensures p.opponent().opponent() == p,
{
}

} // verus!
