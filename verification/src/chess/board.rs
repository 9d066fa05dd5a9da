//! The placement of pieces on the board, kept both square by square and as
//! one bitboard per kind of piece and per player.

use vstd::prelude::*;
use crate::chess::bitboard::{Bitboard, all_squares, flip_square};
use crate::chess::piece::{Piece, PieceKind};
use crate::chess::player::Player;
use crate::chess::square::{Square, on_board};
use crate::chess::bits::{bits_of, lemma_bits_ext};

verus! {

/// A placement of pieces.
#[derive(Clone, Copy)]
pub struct Board {
    pieces: [Bitboard; 6],
    colors: [Bitboard; 2],
    squares: [Option<Piece>; 64],
}

/// The bitboards of a board agree with its squares.
pub open spec fn consistent(pieces: Seq<Bitboard>, colors: Seq<Bitboard>, squares: Seq<Option<Piece>>) -> bool {
    &&& pieces.len() == 6
    &&& colors.len() == 2
    &&& squares.len() == 64
    &&& forall|k: int, s: int|
        0 <= k < 6 && on_board(s) ==> (#[trigger] pieces[k]@.contains(s) <==> (squares[s] is Some
            && squares[s]->0.kind.idx() == k))
    &&& forall|p: int, s: int|
        0 <= p < 2 && on_board(s) ==> (#[trigger] colors[p]@.contains(s) <==> (squares[s] is Some
            && squares[s]->0.player.idx() == p))
}

/// The sum of `f` over the pieces on the first `n` squares.
pub open spec fn board_sum(b: Board, f: spec_fn(int, Piece) -> int, n: int) -> int
    decreases n,
{
    if n <= 0 {
        0
    } else {
        board_sum(b, f, n - 1) + match b.at(n - 1) {
            Some(p) => f(n - 1, p),
            None => 0,
        }
    }
}

/// What a square adds to a `board_sum`.
pub open spec fn square_term(f: spec_fn(int, Piece) -> int, s: int, v: Option<Piece>) -> int {
    match v {
        Some(p) => f(s, p),
        None => 0,
    }
}

/// Changing one square changes a `board_sum` by the difference of its terms.
pub proof fn lemma_board_sum_update(b1: Board, b2: Board, f: spec_fn(int, Piece) -> int, s: int, v: Option<Piece>, n: int)
    requires
        0 <= s < 64,
        n <= 64,
        b1.placement().len() == 64,
        b2.placement() == b1.placement().update(s, v),
    ensures
        board_sum(b2, f, n) == board_sum(b1, f, n) + if s < n {
            square_term(f, s, v) - square_term(f, s, b1.at(s))
        } else {
            0
        },
    decreases n,
{
    if n > 0 {
        lemma_board_sum_update(b1, b2, f, s, v, n - 1);
    }
}

/// Boards with the same placement have the same sums.
pub proof fn lemma_board_sum_same(b1: Board, b2: Board, f: spec_fn(int, Piece) -> int, n: int)
    requires b1.placement() == b2.placement(),
    ensures board_sum(b1, f, n) == board_sum(b2, f, n),
    decreases n,
{
    if n > 0 {
        lemma_board_sum_same(b1, b2, f, n - 1);
    }
}

impl Board {
    /// The bitboards agree with the squares; every board built here is so.
    #[verifier::type_invariant]
    pub closed spec fn wf(self) -> bool {
        consistent(self.pieces@, self.colors@, self.squares@)
    }

    /// Two consistent boards with the same placement are the same board.
    pub proof fn lemma_placement_determines(a: Board, b: Board)
        requires
            a.wf(),
            b.wf(),
            a.placement() == b.placement(),
        ensures a == b,
    {
        assert forall|k: int| 0 <= k < 6 implies a.pieces@[k] == b.pieces@[k] by {
            assert(bits_of(a.pieces@[k].0) =~= bits_of(b.pieces@[k].0)) by {
                assert forall|s: int| bits_of(a.pieces@[k].0).contains(s) <==> bits_of(b.pieces@[k].0).contains(s) by {
                    if on_board(s) {
                        assert(a.pieces@[k]@.contains(s) <==> b.pieces@[k]@.contains(s));
                    }
                }
            }
            lemma_bits_ext(a.pieces@[k].0, b.pieces@[k].0);
        }
        assert forall|p: int| 0 <= p < 2 implies a.colors@[p] == b.colors@[p] by {
            assert(bits_of(a.colors@[p].0) =~= bits_of(b.colors@[p].0)) by {
                assert forall|s: int| bits_of(a.colors@[p].0).contains(s) <==> bits_of(b.colors@[p].0).contains(s) by {
                    if on_board(s) {
                        assert(a.colors@[p]@.contains(s) <==> b.colors@[p]@.contains(s));
                    }
                }
            }
            lemma_bits_ext(a.colors@[p].0, b.colors@[p].0);
        }
        assert(a.pieces@ =~= b.pieces@);
        assert(a.colors@ =~= b.colors@);
        assert(a.squares@ =~= b.squares@);
        vstd::array::axiom_array_ext_equal(a.pieces, b.pieces);
        vstd::array::axiom_array_ext_equal(a.colors, b.colors);
        vstd::array::axiom_array_ext_equal(a.squares, b.squares);
    }

    /// The piece on each square, a1 first.
    pub closed spec fn placement(self) -> Seq<Option<Piece>> {
        self.squares@
    }

    /// The piece on square `s`.
    #[verifier::inline]
    pub open spec fn at(self, s: int) -> Option<Piece> {
        self.placement()[s]
    }

    /// The squares holding `player`'s pieces of the given kind.
    pub open spec fn set_of(self, player: Player, kind: PieceKind) -> Set<int> {
        Set::new(|s: int| on_board(s) && self.at(s) == Some(Piece { player, kind }))
    }

    /// The squares holding pieces of the given kind, of either player.
    pub open spec fn kind_set(self, kind: PieceKind) -> Set<int> {
        Set::new(|s: int| on_board(s) && self.at(s) is Some && self.at(s)->0.kind == kind)
    }

    /// The squares holding `player`'s pieces.
    pub open spec fn player_set(self, player: Player) -> Set<int> {
        Set::new(|s: int| on_board(s) && self.at(s) is Some && self.at(s)->0.player == player)
    }

    /// The occupied squares.
    pub open spec fn occupied_set(self) -> Set<int> {
        Set::new(|s: int| on_board(s) && self.at(s) is Some)
    }

    pub proof fn lemma_placement_len(self)
        ensures self.placement().len() == 64,
    {
    }

    /// The board with no pieces.
    pub fn empty() -> (b: Board)
        ensures forall|s: int| on_board(s) ==> b.at(s) is None,
    {
        let e = Bitboard::empty();
        let b = Board { pieces: [e, e, e, e, e, e], colors: [e, e], squares: [None; 64] };
        b
    }

    /// The board with the given piece on each square.
    pub fn from_squares(squares: [Option<Piece>; 64]) -> (b: Board)
        ensures
            b.placement() == squares@,
            b.wf(),
            forall|player: Player, kind: PieceKind, s: int| on_board(s) ==>
                (#[trigger] b.set_of(player, kind).contains(s) <==> squares@[s] == Some(Piece { player, kind })),
            b.player_set(Player::White).disjoint(b.player_set(Player::Black)),
    {
        let mut b = Board::empty();
        let mut i: usize = 0;
        while i < 64
            invariant
                i <= 64,
                forall|s: int| 0 <= s < i ==> b.at(s) == squares@[s],
                forall|s: int| i <= s < 64 ==> b.at(s) is None,
            decreases 64 - i,
        {
            proof { b.lemma_placement_len(); }
            if let Some(p) = squares[i] {
                b.set_at(Square::from_array_index(i), p);
            }
            i = i + 1;
        }
        proof {
            b.lemma_placement_len();
            assert(b.placement() =~= squares@);
            use_type_invariant(&b);
        }
        b
    }

    /// The squares of `player`'s pieces.
    pub fn occupancy_for(&self, player: Player) -> (r: Bitboard)
        ensures r@ =~= self.player_set(player),
    {
        proof { use_type_invariant(self); }
        self.colors[player.array_idx()]
    }

    /// The occupied squares.
    pub fn occupancy(&self) -> (r: Bitboard)
        ensures r@ =~= self.occupied_set(),
    {
        self.occupancy_for(Player::White).or(self.occupancy_for(Player::Black))
    }

    /// The squares of the pieces of a kind, of either player.
    pub fn all_of_kind(&self, kind: PieceKind) -> (r: Bitboard)
        ensures r@ =~= self.kind_set(kind),
    {
        proof { use_type_invariant(self); }
        self.pieces[kind.array_idx()]
    }

    /// The squares of `player`'s pieces of a kind.
    pub fn pieces_of_kind(&self, kind: PieceKind, player: Player) -> (r: Bitboard)
        ensures r@ =~= self.set_of(player, kind),
    {
        self.all_of_kind(kind).and(self.occupancy_for(player))
    }

    pub fn pawns(&self, player: Player) -> (r: Bitboard)
        ensures r@ =~= self.set_of(player, PieceKind::Pawn),
    {
        self.all_pawns().and(self.occupancy_for(player))
    }

    pub fn all_pawns(&self) -> (r: Bitboard)
        ensures r@ =~= self.kind_set(PieceKind::Pawn),
    {
        self.all_of_kind(PieceKind::Pawn)
    }

    pub fn knights(&self, player: Player) -> (r: Bitboard)
        ensures r@ =~= self.set_of(player, PieceKind::Knight),
    {
        self.all_knights().and(self.occupancy_for(player))
    }

    pub fn all_knights(&self) -> (r: Bitboard)
        ensures r@ =~= self.kind_set(PieceKind::Knight),
    {
        self.all_of_kind(PieceKind::Knight)
    }

    pub fn bishops(&self, player: Player) -> (r: Bitboard)
        ensures r@ =~= self.set_of(player, PieceKind::Bishop),
    {
        self.all_bishops().and(self.occupancy_for(player))
    }

    pub fn all_bishops(&self) -> (r: Bitboard)
        ensures r@ =~= self.kind_set(PieceKind::Bishop),
    {
        self.all_of_kind(PieceKind::Bishop)
    }

    pub fn rooks(&self, player: Player) -> (r: Bitboard)
        ensures r@ =~= self.set_of(player, PieceKind::Rook),
    {
        self.all_rooks().and(self.occupancy_for(player))
    }

    pub fn all_rooks(&self) -> (r: Bitboard)
        ensures r@ =~= self.kind_set(PieceKind::Rook),
    {
        self.all_of_kind(PieceKind::Rook)
    }

    pub fn queens(&self, player: Player) -> (r: Bitboard)
        ensures r@ =~= self.set_of(player, PieceKind::Queen),
    {
        self.all_queens().and(self.occupancy_for(player))
    }

    pub fn all_queens(&self) -> (r: Bitboard)
        ensures r@ =~= self.kind_set(PieceKind::Queen),
    {
        self.all_of_kind(PieceKind::Queen)
    }

    pub fn king(&self, player: Player) -> (r: Bitboard)
        ensures r@ =~= self.set_of(player, PieceKind::King),
    {
        self.all_kings().and(self.occupancy_for(player))
    }

    pub fn all_kings(&self) -> (r: Bitboard)
        ensures r@ =~= self.kind_set(PieceKind::King),
    {
        self.all_of_kind(PieceKind::King)
    }

    /// The player's bishops and queens.
    pub fn diagonal_sliders(&self, player: Player) -> (r: Bitboard)
        ensures r@ =~= self.set_of(player, PieceKind::Bishop).union(self.set_of(player, PieceKind::Queen)),
    {
        self.bishops(player).or(self.queens(player))
    }

    /// All bishops and queens.
    pub fn all_diagonal_sliders(&self) -> (r: Bitboard)
        ensures r@ =~= self.kind_set(PieceKind::Bishop).union(self.kind_set(PieceKind::Queen)),
    {
        self.all_bishops().or(self.all_queens())
    }

    /// The player's rooks and queens.
    pub fn orthogonal_sliders(&self, player: Player) -> (r: Bitboard)
        ensures r@ =~= self.set_of(player, PieceKind::Rook).union(self.set_of(player, PieceKind::Queen)),
    {
        self.rooks(player).or(self.queens(player))
    }

    /// All rooks and queens.
    pub fn all_orthogonal_sliders(&self) -> (r: Bitboard)
        ensures r@ =~= self.kind_set(PieceKind::Rook).union(self.kind_set(PieceKind::Queen)),
    {
        self.all_rooks().or(self.all_queens())
    }

    /// The piece on a square.
    pub fn piece_at(&self, square: Square) -> (r: Option<Piece>)
        ensures r == self.at(square@),
    {
        self.squares[square.array_idx()]
    }

    /// Removes the piece on a square, if there is one; returns whether there was.
    pub fn remove_at(&mut self, square: Square) -> (removed: bool)
        ensures
            removed == old(self).at(square@) is Some,
            final(self).placement() == old(self).placement().update(square@, None),
    {
        proof { use_type_invariant(&*self); }
        let i = square.array_idx();
        let Some(piece) = self.squares[i] else {
            proof { assert(self.placement() =~= old(self).placement().update(square@, None)); }
            return false;
        };
        let k = piece.kind.array_idx();
        let p = piece.player.array_idx();
        let mut pieces = self.pieces;
        let mut colors = self.colors;
        let mut squares = self.squares;
        pieces[k] = pieces[k].xor(square.bb());
        colors[p].unset_inplace(square);
        squares[i] = None;
        proof {
            assert forall|kk: int, s: int|
                0 <= kk < 6 && on_board(s) implies (#[trigger] pieces@[kk]@.contains(s) <==> (squares@[s] is Some
                    && squares@[s]->0.kind.idx() == kk)) by {
                assert(old(self).pieces@[kk]@.contains(s) <==> (old(self).squares@[s] is Some && old(self).squares@[s]->0.kind.idx() == kk));
            }
            assert forall|pp: int, s: int|
                0 <= pp < 2 && on_board(s) implies (#[trigger] colors@[pp]@.contains(s) <==> (squares@[s] is Some
                    && squares@[s]->0.player.idx() == pp)) by {
                assert(old(self).colors@[pp]@.contains(s) <==> (old(self).squares@[s] is Some && old(self).squares@[s]->0.player.idx() == pp));
            }
        }
        *self = Board { pieces, colors, squares };
        proof { assert(self.placement() =~= old(self).placement().update(square@, None)); }
        true
    }

    /// Puts a piece on an empty square.
    pub fn set_at(&mut self, square: Square, piece: Piece)
        requires old(self).at(square@) is None,
        ensures final(self).placement() == old(self).placement().update(square@, Some(piece)),
    {
        proof { use_type_invariant(&*self); }
        let i = square.array_idx();
        let k = piece.kind.array_idx();
        let p = piece.player.array_idx();
        let mut pieces = self.pieces;
        let mut colors = self.colors;
        let mut squares = self.squares;
        pieces[k].set_inplace(square);
        colors[p].set_inplace(square);
        squares[i] = Some(piece);
        proof {
            assert forall|kk: int, s: int|
                0 <= kk < 6 && on_board(s) implies (#[trigger] pieces@[kk]@.contains(s) <==> (squares@[s] is Some
                    && squares@[s]->0.kind.idx() == kk)) by {
                assert(old(self).pieces@[kk]@.contains(s) <==> (old(self).squares@[s] is Some && old(self).squares@[s]->0.kind.idx() == kk));
            }
            assert forall|pp: int, s: int|
                0 <= pp < 2 && on_board(s) implies (#[trigger] colors@[pp]@.contains(s) <==> (squares@[s] is Some
                    && squares@[s]->0.player.idx() == pp)) by {
                assert(old(self).colors@[pp]@.contains(s) <==> (old(self).squares@[s] is Some && old(self).squares@[s]->0.player.idx() == pp));
            }
        }
        *self = Board { pieces, colors, squares };
        proof { assert(self.placement() =~= old(self).placement().update(square@, Some(piece))); }
    }

    /// Whether an enemy piece attacks `player`'s king.
    pub fn king_in_check(&self, player: Player) -> (r: bool)
        requires self.set_of(player, PieceKind::King).len() == 1,
        ensures
            r == exists|k: int| #[trigger] self.set_of(player, PieceKind::King).contains(k)
                && !crate::chess::movegen::attackers::attackers_spec(*self, player, k).is_empty(),
    {
        let king = self.king(player).single();
        let enemy_attackers = crate::chess::movegen::generate_attackers_of(self, player, king);
        proof {
            assert(self.set_of(player, PieceKind::King).contains(king@));
        }
        enemy_attackers.any()
    }

    /// The board mirrored top to bottom, each piece keeping its owner.
    pub fn flip_vertically(&self) -> (b: Board)
        ensures forall|s: int| on_board(s) ==> b.at(s) == self.at(#[trigger] flip_square(s)),
    {
        proof { use_type_invariant(self); }
        let mut flipped: [Option<Piece>; 64] = [None; 64];
        let mut rank: usize = 0;
        while rank < 8
            invariant
                rank <= 8,
                self.placement().len() == 64,
                forall|s: int| on_board(s) && 7 - s / 8 < rank ==> flipped@[s] == self.at(#[trigger] flip_square(s)),
            decreases 8 - rank,
        {
            let mut file: usize = 0;
            while file < 8
                invariant
                    rank < 8,
                    file <= 8,
                    self.placement().len() == 64,
                    forall|s: int| on_board(s) && 7 - s / 8 < rank ==> flipped@[s] == self.at(#[trigger] flip_square(s)),
                    forall|s: int| on_board(s) && 7 - s / 8 == rank && s % 8 < file ==> flipped@[s] == self.at(#[trigger] flip_square(s)),
                decreases 8 - file,
            {
                flipped[(8 - rank - 1) * 8 + file] = self.squares[rank * 8 + file];
                file = file + 1;
            }
            rank = rank + 1;
        }
        let b = Board::from_squares(flipped);
        b
    }
}

/// Flipping a board vertically twice gives back every square's piece.
pub proof fn lemma_flip_twice(b: Board, once: Board, twice: Board)
    requires
        forall|s: int| on_board(s) ==> once.at(s) == b.at(#[trigger] flip_square(s)),
        forall|s: int| on_board(s) ==> twice.at(s) == once.at(#[trigger] flip_square(s)),
    ensures
        forall|s: int| on_board(s) ==> #[trigger] twice.at(s) == b.at(s),
{
    assert forall|s: int| on_board(s) implies #[trigger] twice.at(s) == b.at(s) by {
        let f = flip_square(s);
        assert(on_board(f));
        assert(flip_square(f) == s);
        assert(twice.at(s) == once.at(f));
        assert(once.at(f) == b.at(flip_square(f)));
    }
}

/// The character a square's piece is drawn with.
pub open spec fn piece_glyph(piece: Option<Piece>) -> char {
    match piece {
        Some(Piece { player: Player::White, kind: PieceKind::Pawn }) => '♟',
        Some(Piece { player: Player::Black, kind: PieceKind::Pawn }) => '♙',
        Some(Piece { player: Player::White, kind: PieceKind::Knight }) => '♞',
        Some(Piece { player: Player::Black, kind: PieceKind::Knight }) => '♘',
        Some(Piece { player: Player::White, kind: PieceKind::Bishop }) => '♝',
        Some(Piece { player: Player::Black, kind: PieceKind::Bishop }) => '♗',
        Some(Piece { player: Player::White, kind: PieceKind::Rook }) => '♜',
        Some(Piece { player: Player::Black, kind: PieceKind::Rook }) => '♖',
        Some(Piece { player: Player::White, kind: PieceKind::Queen }) => '♛',
        Some(Piece { player: Player::Black, kind: PieceKind::Queen }) => '♕',
        Some(Piece { player: Player::White, kind: PieceKind::King }) => '♚',
        Some(Piece { player: Player::Black, kind: PieceKind::King }) => '♔',
        None => '.',
    }
}

/// The character at position `p` of a drawn board: a newline, the eight
/// rows of rank 8 to rank 1 (pieces separated by spaces, rows by newlines),
/// and a newline.
pub open spec fn board_char(b: Board, p: int) -> char {
    let q = p - 1;
    if p == 0 || p == 128 || q % 16 == 15 {
        '\n'
    } else if q % 2 == 1 {
        ' '
    } else {
        piece_glyph(b.at(crate::chess::bitboard::grid_square(q)))
    }
}

/// The glyph of a piece.
fn glyph(piece: Option<Piece>) -> (c: char)
    ensures c == piece_glyph(piece),
{
    match piece {
        Some(Piece { player: Player::White, kind: PieceKind::Pawn }) => '♟',
        Some(Piece { player: Player::Black, kind: PieceKind::Pawn }) => '♙',
        Some(Piece { player: Player::White, kind: PieceKind::Knight }) => '♞',
        Some(Piece { player: Player::Black, kind: PieceKind::Knight }) => '♘',
        Some(Piece { player: Player::White, kind: PieceKind::Bishop }) => '♝',
        Some(Piece { player: Player::Black, kind: PieceKind::Bishop }) => '♗',
        Some(Piece { player: Player::White, kind: PieceKind::Rook }) => '♜',
        Some(Piece { player: Player::Black, kind: PieceKind::Rook }) => '♖',
        Some(Piece { player: Player::White, kind: PieceKind::Queen }) => '♛',
        Some(Piece { player: Player::Black, kind: PieceKind::Queen }) => '♕',
        Some(Piece { player: Player::White, kind: PieceKind::King }) => '♚',
        Some(Piece { player: Player::Black, kind: PieceKind::King }) => '♔',
        None => '.',
    }
}

impl Board {
    /// The board drawn for a person: a newline, then rank 8 to rank 1, the
    /// pieces as chess glyphs and empty squares as `.`, separated by spaces,
    /// then a newline.
    pub fn to_debug_string(&self) -> (r: String)
        ensures r@ == Seq::new(129, |p: int| board_char(*self, p)),
    {
        let mut r = String::new();
        let mut p: usize = 0;
        while p < 129
            invariant
                p <= 129,
                r@ == Seq::new(p as nat, |q: int| board_char(*self, q)),
            decreases 129 - p,
        {
            let c = if p == 0 || p == 128 || (p - 1) % 16 == 15 {
                '\n'
            } else if (p - 1) % 2 == 1 {
                ' '
            } else {
                glyph(self.piece_at(Square::from_idxs(((p - 1) % 16) / 2, 7 - (p - 1) / 16)))
            };
            crate::text::push_char(&mut r, c);
            proof {
                assert(r@ =~= Seq::new((p + 1) as nat, |q: int| board_char(*self, q)));
            }
            p = p + 1;
        }
        r
    }
}

} // verus!
