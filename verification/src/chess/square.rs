//! Squares of the board, with their files and ranks.

use vstd::prelude::*;
use crate::chess::player::Player;

verus! {

/// A file (column) of the board, from A to H.
#[derive(Debug, PartialEq, Eq, Clone, Copy, Structural)]
pub enum File {
    A,
    B,
    C,
    D,
    E,
    F,
    G,
    H,
}

/// A rank (row) of the board, from 1 to 8.
#[derive(Debug, PartialEq, Eq, Clone, Copy, Structural)]
pub enum Rank {
    R1,
    R2,
    R3,
    R4,
    R5,
    R6,
    R7,
    R8,
}

impl File {
    /// The file's index: A is 0, H is 7.
    pub open spec fn index(self) -> int {
        match self {
            File::A => 0,
            File::B => 1,
            File::C => 2,
            File::D => 3,
            File::E => 4,
            File::F => 5,
            File::G => 6,
            File::H => 7,
        }
    }

    /// The file with the given index.
    pub open spec fn from_index_spec(i: int) -> File {
        if i <= 0 {
            File::A
        } else if i == 1 {
            File::B
        } else if i == 2 {
            File::C
        } else if i == 3 {
            File::D
        } else if i == 4 {
            File::E
        } else if i == 5 {
            File::F
        } else if i == 6 {
            File::G
        } else {
            File::H
        }
    }

    /// The letter that names the file, `'a'` to `'h'`.
    pub open spec fn letter(self) -> char {
        ((self.index() + 97) as u8) as char
    }

    pub fn array_idx(self) -> (r: usize)
        ensures r == self.index(), r < 8,
    {
        match self {
            File::A => 0,
            File::B => 1,
            File::C => 2,
            File::D => 3,
            File::E => 4,
            File::F => 5,
            File::G => 6,
            File::H => 7,
        }
    }

    pub fn from_array_idx(i: usize) -> (f: File)
        requires i < 8,
        ensures f.index() == i, f == File::from_index_spec(i as int),
    {
        match i {
            0 => File::A,
            1 => File::B,
            2 => File::C,
            3 => File::D,
            4 => File::E,
            5 => File::F,
            6 => File::G,
            _ => File::H,
        }
    }

    /// The lowercase letter that names the file.
    pub fn notation(self) -> (c: char)
        ensures c == self.letter(),
    {
        match self {
            File::A => 'a',
            File::B => 'b',
            File::C => 'c',
            File::D => 'd',
            File::E => 'e',
            File::F => 'f',
            File::G => 'g',
            File::H => 'h',
        }
    }
}

impl Rank {
    /// The rank's index: rank 1 is 0, rank 8 is 7.
    pub open spec fn index(self) -> int {
        match self {
            Rank::R1 => 0,
            Rank::R2 => 1,
            Rank::R3 => 2,
            Rank::R4 => 3,
            Rank::R5 => 4,
            Rank::R6 => 5,
            Rank::R7 => 6,
            Rank::R8 => 7,
        }
    }

    /// The digit that names the rank, `'1'` to `'8'`.
    pub open spec fn digit(self) -> char {
        ((self.index() + 49) as u8) as char
    }

    pub fn array_idx(self) -> (r: usize)
        ensures r == self.index(), r < 8,
    {
        match self {
            Rank::R1 => 0,
            Rank::R2 => 1,
            Rank::R3 => 2,
            Rank::R4 => 3,
            Rank::R5 => 4,
            Rank::R6 => 5,
            Rank::R7 => 6,
            Rank::R8 => 7,
        }
    }

    pub fn from_array_idx(i: usize) -> (r: Rank)
        requires i < 8,
        ensures r.index() == i,
    {
        match i {
            0 => Rank::R1,
            1 => Rank::R2,
            2 => Rank::R3,
            3 => Rank::R4,
            4 => Rank::R5,
            5 => Rank::R6,
            6 => Rank::R7,
            _ => Rank::R8,
        }
    }

    /// The digit that names the rank.
    pub fn notation(self) -> (c: char)
        ensures c == self.digit(),
    {
        match self {
            Rank::R1 => '1',
            Rank::R2 => '2',
            Rank::R3 => '3',
            Rank::R4 => '4',
            Rank::R5 => '5',
            Rank::R6 => '6',
            Rank::R7 => '7',
            Rank::R8 => '8',
        }
    }
}

/// A square of the board, numbered 0 (a1) to 63 (h8), rank by rank.
#[derive(Debug, PartialEq, Eq, Clone, Copy, Structural)]
pub struct Square(u8);

/// The name of a square: its file letter and rank digit, such as `e4`.
pub open spec fn square_name(s: int) -> Seq<char> {
    seq![((file_of(s) + 97) as u8) as char, ((rank_of(s) + 49) as u8) as char]
}

impl Square {
    /// The name of the square, such as `e4`.
    pub fn notation(self) -> (r: String)
        ensures r@ == square_name(self@),
    {
        let mut r = String::new();
        crate::text::push_char(&mut r, self.file().notation());
        crate::text::push_char(&mut r, self.rank().notation());
        proof { assert(r@ =~= square_name(self@)); }
        r
    }
}

/// The file index (0 for a, 7 for h) of a square index.
pub open spec fn file_of(s: int) -> int {
    s % 8
}

/// The rank index (0 for rank 1, 7 for rank 8) of a square index.
pub open spec fn rank_of(s: int) -> int {
    s / 8
}

/// A valid square index.
#[verifier::inline]
pub open spec fn on_board(s: int) -> bool {
    0 <= s < 64
}

impl View for Square {
    type V = int;

    closed spec fn view(&self) -> int {
        self.0 as int
    }
}

impl Square {
    #[verifier::type_invariant]
    spec fn inv(self) -> bool {
        self.0 < 64
    }

    /// Squares with the same index are the same square.
    pub proof fn lemma_view_injective(a: Square, b: Square)
        requires a@ == b@,
        ensures a == b,
    {
    }

    /// The number of squares.
    pub open spec fn n() -> nat {
        64
    }

    pub fn from_index(i: u8) -> (s: Square)
        requires i < 64,
        ensures s@ == i,
    {
        Square(i)
    }

    pub fn from_array_index(i: usize) -> (s: Square)
        requires i < 64,
        ensures s@ == i,
    {
        Square(i as u8)
    }

    pub fn from_idxs(file: usize, rank: usize) -> (s: Square)
        requires file < 8, rank < 8,
        ensures s@ == rank * 8 + file,
    {
        Square((rank * 8 + file) as u8)
    }

    pub fn from_file_and_rank(file: File, rank: Rank) -> (s: Square)
        ensures s@ == rank.index() * 8 + file.index(),
    {
        Square((rank.array_idx() * 8 + file.array_idx()) as u8)
    }

    /// The square's index, 0 to 63.
    pub fn idx(self) -> (r: u8)
        ensures r == self@, r < 64,
    {
        proof { use_type_invariant(&self); }
        self.0
    }

    /// The square's index, for indexing arrays of 64 entries.
    pub fn array_idx(self) -> (r: usize)
        ensures r == self@, r < 64,
    {
        proof { use_type_invariant(&self); }
        self.0 as usize
    }

    pub fn file(self) -> (f: File)
        ensures f.index() == file_of(self@),
    {
        proof { use_type_invariant(&self); }
        File::from_array_idx((self.0 % 8) as usize)
    }

    pub fn rank(self) -> (r: Rank)
        ensures r.index() == rank_of(self@),
    {
        proof { use_type_invariant(&self); }
        Rank::from_array_idx((self.0 / 8) as usize)
    }

    /// The square one rank further from the player's side of the board.
    pub fn forward(self, player: Player) -> (s: Square)
        requires
            player == Player::White ==> self@ < 56,
            player == Player::Black ==> self@ >= 8,
        ensures
            player == Player::White ==> s@ == self@ + 8,
            player == Player::Black ==> s@ == self@ - 8,
    {
        proof { use_type_invariant(&self); }
        match player {
            Player::White => Square(self.0 + 8),
            Player::Black => Square(self.0 - 8),
        }
    }

    /// The square one rank closer to the player's side of the board.
    pub fn backward(self, player: Player) -> (s: Square)
        requires
            player == Player::White ==> self@ >= 8,
            player == Player::Black ==> self@ < 56,
        ensures
            player == Player::White ==> s@ == self@ - 8,
            player == Player::Black ==> s@ == self@ + 8,
    {
        proof { use_type_invariant(&self); }
        match player {
            Player::White => Square(self.0 - 8),
            Player::Black => Square(self.0 + 8),
        }
    }

    /// The number of king-free steps along files and ranks between two squares.
    pub fn manhattan_distance_to(self, other: Square) -> (d: u8)
        ensures
            d == abs_diff(file_of(self@), file_of(other@)) + abs_diff(rank_of(self@), rank_of(other@)),
            d <= 14,
    {
        proof {
            use_type_invariant(&self);
            use_type_invariant(&other);
        }
        let f1 = self.0 % 8;
        let f2 = other.0 % 8;
        let r1 = self.0 / 8;
        let r2 = other.0 / 8;
        let df = if f1 > f2 { f1 - f2 } else { f2 - f1 };
        let dr = if r1 > r2 { r1 - r2 } else { r2 - r1 };
        df + dr
    }
}

/// The distance between two integers.
pub open spec fn abs_diff(a: int, b: int) -> int {
    if a >= b { a - b } else { b - a }
}

} // verus!
