//! Evaluations from White's point of view.

use vstd::prelude::*;

verus! {

/// A classical evaluation in centipawns, from White's point of view:
/// positive values favour White.
#[derive(Debug, PartialEq, Eq, PartialOrd, Ord, Clone, Copy)]
pub struct WhiteEval(pub i16);

impl WhiteEval {
    pub fn add(self, rhs: Self) -> (r: Self)
        requires i16::MIN <= self.0 + rhs.0 <= i16::MAX,
        ensures r.0 == self.0 + rhs.0,
    {
        WhiteEval(self.0 + rhs.0)
    }

    pub fn sub(self, rhs: Self) -> (r: Self)
        requires i16::MIN <= self.0 - rhs.0 <= i16::MAX,
        ensures r.0 == self.0 - rhs.0,
    {
        WhiteEval(self.0 - rhs.0)
    }

    pub fn mul(self, rhs: i16) -> (r: Self)
        requires i16::MIN <= self.0 * rhs <= i16::MAX,
        ensures r.0 == self.0 * rhs,
    {
        WhiteEval(self.0 * rhs)
    }

    /// The negated evaluation; the most negative value maps to the most positive.
    pub fn neg(self) -> (r: Self)
        ensures r.0 == (if self.0 == i16::MIN { i16::MAX as int } else { -self.0 }),
    {
        WhiteEval(if self.0 == i16::MIN { i16::MAX } else { -self.0 })
    }
}

} // verus!
