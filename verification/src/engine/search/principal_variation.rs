//! The principal variation: the line of best play found by the search.

use vstd::prelude::*;
use crate::chess::moves::Move;

verus! {

/// The longest line a principal variation holds.
pub const MAX_PV_LENGTH: usize = 255;

/// A line of moves, the first to be played first.
pub struct PrincipalVariation {
    moves: Vec<Move>,
}

impl View for PrincipalVariation {
    type V = Seq<Move>;

    closed spec fn view(&self) -> Seq<Move> {
        self.moves@
    }
}

impl PrincipalVariation {
    /// The empty line.
    pub fn new() -> (pv: Self)
        ensures pv@ == Seq::<Move>::empty(),
    {
        PrincipalVariation { moves: Vec::new() }
    }

    /// Empties the line.
    pub fn clear(&mut self)
        ensures final(self)@ == Seq::<Move>::empty(),
    {
        self.moves = Vec::new();
    }

    /// Makes the line `mv` followed by `child_pv`.
    pub fn push(&mut self, mv: Move, child_pv: &Self)
        requires child_pv@.len() < MAX_PV_LENGTH,
        ensures final(self)@ == seq![mv] + child_pv@,
    {
        let mut moves: Vec<Move> = Vec::new();
        moves.push(mv);
        let mut i: usize = 0;
        while i < child_pv.moves.len()
            invariant
                i <= child_pv@.len(),
                moves@ == seq![mv] + child_pv@.subrange(0, i as int),
            decreases child_pv@.len() - i,
        {
            moves.push(child_pv.moves[i]);
            proof { assert(moves@ =~= seq![mv] + child_pv@.subrange(0, i + 1)); }
            i = i + 1;
        }
        proof { assert(child_pv@.subrange(0, child_pv@.len() as int) =~= child_pv@); }
        self.moves = moves;
    }

    /// The moves of the line.
    pub fn as_slice(&self) -> (r: &[Move])
        ensures r@ == self@,
    {
        self.moves.as_slice()
    }

    /// The first move of the line, if any.
    pub fn first(&self) -> (r: Option<Move>)
        ensures r == (if self@.len() == 0 { None } else { Some(self@[0]) }),
    {
        if self.moves.len() == 0 { None } else { Some(self.moves[0]) }
    }

    /// The number of moves of the line.
    pub fn len(&self) -> (r: usize)
        ensures r == self@.len(),
    {
        self.moves.len()
    }

    /// A copy of the line.
    pub fn duplicate(&self) -> (r: Self)
        ensures r@ == self@,
    {
        let mut moves: Vec<Move> = Vec::new();
        let mut i: usize = 0;
        while i < self.moves.len()
            invariant
                i <= self@.len(),
                moves@ == self@.subrange(0, i as int),
            decreases self@.len() - i,
        {
            moves.push(self.moves[i]);
            proof { assert(moves@ =~= self@.subrange(0, i + 1)); }
            i = i + 1;
        }
        proof { assert(self@.subrange(0, self@.len() as int) =~= self@); }
        PrincipalVariation { moves }
    }
}

} // verus!
