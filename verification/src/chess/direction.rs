//! The eight compass directions in which pieces move.

use vstd::prelude::*;

verus! {

/// A direction on the board; north points from rank 1 towards rank 8 and
/// east from the a-file towards the h-file.
#[derive(Debug, PartialEq, Eq, Clone, Copy, Structural)]
pub enum Direction {
    North,
    NorthEast,
    East,
    SouthEast,
    South,
    SouthWest,
    West,
    NorthWest,
}

impl Direction {
    /// The change of file index made by one step in this direction.
    pub open spec fn df(self) -> int {
        match self {
            Direction::North | Direction::South => 0,
            Direction::NorthEast | Direction::East | Direction::SouthEast => 1,
            Direction::SouthWest | Direction::West | Direction::NorthWest => -1,
        }
    }

    /// The change of rank index made by one step in this direction.
    pub open spec fn dr(self) -> int {
        match self {
            Direction::East | Direction::West => 0,
            Direction::NorthWest | Direction::North | Direction::NorthEast => 1,
            Direction::SouthWest | Direction::South | Direction::SouthEast => -1,
        }
    }

    /// Whether the direction runs along a file or a rank.
    pub open spec fn is_orthogonal(self) -> bool {
        self.df() == 0 || self.dr() == 0
    }
}

/// The four directions in which rooks move.
pub fn cardinal() -> (r: [Direction; 4])
    ensures
        forall|i: int| 0 <= i < 4 ==> r[i].is_orthogonal(),
        r@ == seq![Direction::North, Direction::East, Direction::South, Direction::West],
{
    [Direction::North, Direction::East, Direction::South, Direction::West]
}

/// The four directions in which bishops move.
pub fn diagonal() -> (r: [Direction; 4])
    ensures
        forall|i: int| 0 <= i < 4 ==> !r[i].is_orthogonal(),
        r@ == seq![Direction::NorthEast, Direction::SouthEast, Direction::SouthWest, Direction::NorthWest],
{
    [Direction::NorthEast, Direction::SouthEast, Direction::SouthWest, Direction::NorthWest]
}

/// All eight directions, clockwise from north.
pub fn all() -> (r: [Direction; 8])
    ensures
        r@ == seq![Direction::North, Direction::NorthEast, Direction::East, Direction::SouthEast,
            Direction::South, Direction::SouthWest, Direction::West, Direction::NorthWest],
{
    [
        Direction::North,
        Direction::NorthEast,
        Direction::East,
        Direction::SouthEast,
        Direction::South,
        Direction::SouthWest,
        Direction::West,
        Direction::NorthWest,
    ]
}

} // verus!
