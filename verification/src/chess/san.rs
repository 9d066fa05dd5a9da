//! Writing moves in Standard Algebraic Notation.

use vstd::prelude::*;
use crate::chess::bitboard::bitboards::king_start_index;
use crate::chess::game::Game;
use crate::chess::movegen::attackers::{attackers_in, placed_set, lemma_attackers_in};
use crate::chess::movegen::gen::{legal_move, checkers, king_square};
use crate::chess::moves::{Move, promotion_of_flags};
use crate::chess::piece::{Piece, PieceKind, PromotionPieceKind};
use crate::chess::player::Player;
use crate::chess::square::{Square, file_of, rank_of, square_name};
use crate::text::push_char;

verus! {

/// What must be added to a move's piece letter to tell it apart from
/// another move of the same kind of piece to the same square.
#[derive(Debug, Clone, Copy, PartialEq, Eq, Structural)]
pub enum AmbiguityResolution {
    NotNeeded,
    /// The source file tells the moves apart.
    File,
    /// The moves start on the same file: the source rank tells them apart.
    Rank,
    /// Neither the file nor the rank alone tells them apart.
    Exact,
}

/// The kind of the piece that a move moves.
pub open spec fn moved_kind(game: Game, mv: Move) -> PieceKind {
    game.board.at(mv.src_spec())->0.kind
}

/// Another legal move of the same kind of piece to the same square.
pub open spec fn rival(game: Game, mv: Move, m: Move) -> bool {
    &&& legal_move(game, true, m)
    &&& m.dst_spec() == mv.dst_spec()
    &&& game.board.at(m.src_spec()) is Some
    &&& game.board.at(m.src_spec())->0.kind == moved_kind(game, mv)
    &&& m != mv
}

/// Whether a rival starts on the same file.
pub open spec fn ambiguous_by_file(game: Game, mv: Move) -> bool {
    exists|m: Move| #[trigger] rival(game, mv, m) && file_of(m.src_spec()) == file_of(mv.src_spec())
}

/// Whether a rival starts on the same rank.
pub open spec fn ambiguous_by_rank(game: Game, mv: Move) -> bool {
    exists|m: Move| #[trigger] rival(game, mv, m) && rank_of(m.src_spec()) == rank_of(mv.src_spec())
}

/// The disambiguation a move needs. Pawn and king moves need none.
pub open spec fn resolution_spec(game: Game, mv: Move) -> AmbiguityResolution {
    let kind = moved_kind(game, mv);
    if kind == PieceKind::Pawn || kind == PieceKind::King {
        AmbiguityResolution::NotNeeded
    } else {
        match (ambiguous_by_file(game, mv), ambiguous_by_rank(game, mv)) {
            (false, false) => AmbiguityResolution::NotNeeded,
            (true, false) => AmbiguityResolution::Rank,
            (false, true) => AmbiguityResolution::File,
            (true, true) => AmbiguityResolution::Exact,
        }
    }
}

/// The disambiguation that a move needs.
pub fn required_ambiguity_resolution(game: &Game, mv: Move) -> (r: AmbiguityResolution)
    requires
        game.wf(),
        game.board.set_of(game.player, PieceKind::King).len() == 1,
        game.board.at(mv.src_spec()) is Some,
    ensures r == resolution_spec(*game, mv),
{
    let from = mv.src();
    let piece = match game.board.piece_at(from) {
        Some(p) => p,
        None => return AmbiguityResolution::NotNeeded,
    };
    if piece.kind == PieceKind::Pawn || piece.kind == PieceKind::King {
        return AmbiguityResolution::NotNeeded;
    }
    let to = mv.dst();
    let moves = game.moves();
    let mut by_file = false;
    let mut by_rank = false;
    let mut i: usize = 0;
    while i < moves.len()
        invariant
            i <= moves.len(),
            forall|m: Move| #[trigger] moves@.contains(m) <==> legal_move(*game, true, m),
            piece == game.board.at(mv.src_spec())->0,
            from@ == mv.src_spec(),
            to@ == mv.dst_spec(),
            by_file == exists|j: int| 0 <= j < i && rival(*game, mv, #[trigger] moves@[j]) && file_of(moves@[j].src_spec()) == file_of(mv.src_spec()),
            by_rank == exists|j: int| 0 <= j < i && rival(*game, mv, #[trigger] moves@[j]) && rank_of(moves@[j].src_spec()) == rank_of(mv.src_spec()),
        decreases moves.len() - i,
    {
        let m = moves[i];
        proof { assert(moves@.contains(moves@[i as int])); }
        let same_kind = match game.board.piece_at(m.src()) {
            Some(p) => p.kind == piece.kind,
            None => false,
        };
        let is_rival = m.dst().idx() == to.idx() && same_kind && m != mv;
        if is_rival && m.src().idx() % 8 == from.idx() % 8 {
            by_file = true;
        }
        if is_rival && m.src().idx() / 8 == from.idx() / 8 {
            by_rank = true;
        }
        proof {
            assert(is_rival == rival(*game, mv, moves@[i as int]));
        }
        i = i + 1;
    }
    proof {
        if ambiguous_by_file(*game, mv) {
            let m = choose|m: Move| #[trigger] rival(*game, mv, m) && file_of(m.src_spec()) == file_of(mv.src_spec());
            assert(moves@.contains(m));
            let j = choose|j: int| 0 <= j < moves@.len() && moves@[j] == m;
            assert(rival(*game, mv, moves@[j]));
        }
        if by_file {
            let j = choose|j: int| 0 <= j < moves@.len() && rival(*game, mv, #[trigger] moves@[j]) && file_of(moves@[j].src_spec()) == file_of(mv.src_spec());
            assert(rival(*game, mv, moves@[j]));
        }
        if ambiguous_by_rank(*game, mv) {
            let m = choose|m: Move| #[trigger] rival(*game, mv, m) && rank_of(m.src_spec()) == rank_of(mv.src_spec());
            assert(moves@.contains(m));
            let j = choose|j: int| 0 <= j < moves@.len() && moves@[j] == m;
            assert(rival(*game, mv, moves@[j]));
        }
        if by_rank {
            let j = choose|j: int| 0 <= j < moves@.len() && rival(*game, mv, #[trigger] moves@[j]) && rank_of(moves@[j].src_spec()) == rank_of(mv.src_spec());
            assert(rival(*game, mv, moves@[j]));
        }
    }
    match (by_file, by_rank) {
        (false, false) => AmbiguityResolution::NotNeeded,
        (true, false) => AmbiguityResolution::Rank,
        (false, true) => AmbiguityResolution::File,
        (true, true) => AmbiguityResolution::Exact,
    }
}

/// Whether the move leaves the opponent, who has one king, in check.
pub open spec fn gives_check(game: Game, mv: Move) -> bool {
    let pl = game.placement_after(mv);
    let them = game.player.opponent();
    &&& placed_set(pl, them, PieceKind::King).len() == 1
    &&& exists|k: int| #[trigger] placed_set(pl, them, PieceKind::King).contains(k) && !attackers_in(pl, them, k).is_empty()
}

/// A set of one element holds nothing else.
proof fn lemma_single_element(s: Set<int>, k: int)
    requires
        s.finite(),
        s.len() == 1,
        s.contains(k),
    ensures forall|k2: int| #[trigger] s.contains(k2) ==> k2 == k,
{
    assert forall|k2: int| #[trigger] s.contains(k2) implies k2 == k by {
        if k2 != k {
            assert(s.remove(k).contains(k2));
            assert(s.remove(k).len() == 0);
        }
    }
}

/// Whether the player to move in a game with one king is in check, in
/// terms of the placement.
proof fn lemma_check_in_placement(g: Game)
    requires
        g.board.set_of(g.player, PieceKind::King).len() == 1,
        g.board.set_of(g.player, PieceKind::King).finite(),
    ensures
        !checkers(g).is_empty() == exists|k: int| #[trigger] placed_set(g.board.placement(), g.player, PieceKind::King).contains(k)
            && !attackers_in(g.board.placement(), g.player, k).is_empty(),
{
    let k = king_square(g.board, g.player);
    let pl = g.board.placement();
    lemma_attackers_in(g.board, g.player, k);
    assert(g.board.set_of(g.player, PieceKind::King) =~= placed_set(pl, g.player, PieceKind::King));
    let kings = placed_set(pl, g.player, PieceKind::King);
    assert(kings.len() != 0);
    if kings.is_empty() {
        assert(kings =~= Set::empty());
    }
    assert(kings.contains(k));
    lemma_single_element(kings, k);
}

/// Whether the move leaves the opponent in check.
fn gives_check_exec(game: &Game, mv: Move) -> (r: bool)
    requires
        game.wf(),
        game.board.at(mv.src_spec()) is Some,
    ensures r == gives_check(*game, mv),
{
    let mut g = game.duplicate();
    proof {
        assert forall|i: int| 0 <= i < g.history@.len() implies (#[trigger] g.history@[i]).wf() by {
            assert(g.history@[i] == game.history@[i]);
        }
    }
    g.make_move(mv);
    let ghost pl = game.placement_after(mv);
    let ghost them = game.player.opponent();
    proof {
        assert(g.board.placement() == pl && g.player == them);
        assert(g.board.set_of(them, PieceKind::King) =~= placed_set(pl, them, PieceKind::King));
    }
    let kings = g.board.king(g.player);
    if kings.count() != 1 {
        return false;
    }
    let r = g.is_king_in_check();
    proof { lemma_check_in_placement(g); }
    r
}

/// The letter of a piece in SAN; none for a pawn.
pub open spec fn piece_letter(kind: PieceKind) -> Seq<char> {
    match kind {
        PieceKind::Pawn => Seq::empty(),
        PieceKind::Knight => seq!['N'],
        PieceKind::Bishop => seq!['B'],
        PieceKind::Rook => seq!['R'],
        PieceKind::Queen => seq!['Q'],
        PieceKind::King => seq!['K'],
    }
}

/// The letter of a promotion piece.
pub open spec fn promotion_letter(p: PromotionPieceKind) -> char {
    match p {
        PromotionPieceKind::Knight => 'N',
        PromotionPieceKind::Bishop => 'B',
        PromotionPieceKind::Rook => 'R',
        PromotionPieceKind::Queen => 'Q',
    }
}

/// Whether the move takes a piece, en passant included.
pub open spec fn san_capture(game: Game, mv: Move) -> bool {
    game.board.at(mv.dst_spec()) is Some
        || (moved_kind(game, mv) == PieceKind::Pawn && (game.en_passant_target matches Some(t) && t@ == mv.dst_spec()))
}

/// The move in SAN: `O-O` or `O-O-O` for the king's step of two files from
/// its starting square; otherwise the piece letter (for a pawn that
/// captures, its file), the disambiguation, `x` for a capture, the
/// destination, `=` and the letter of a promotion, and `+` for a check.
pub open spec fn san_spec(game: Game, mv: Move) -> Seq<char> {
    let from = mv.src_spec();
    let to = mv.dst_spec();
    let kind = moved_kind(game, mv);
    let start = king_start_index(game.player);
    if kind == PieceKind::King && from == start && to == start + 2 {
        seq!['O', '-', 'O']
    } else if kind == PieceKind::King && from == start && to == start - 2 {
        seq!['O', '-', 'O', '-', 'O']
    } else {
        let capture = san_capture(game, mv);
        let id = if kind == PieceKind::Pawn {
            if capture { seq![square_name(from)[0]] } else { Seq::empty() }
        } else {
            piece_letter(kind)
        };
        let amb = match resolution_spec(game, mv) {
            AmbiguityResolution::NotNeeded => Seq::empty(),
            AmbiguityResolution::File => seq![square_name(from)[0]],
            AmbiguityResolution::Rank => seq![square_name(from)[1]],
            AmbiguityResolution::Exact => square_name(from),
        };
        let x = if capture { seq!['x'] } else { Seq::empty() };
        let promo = match promotion_of_flags(mv.flags_spec()) {
            Some(p) => seq!['=', promotion_letter(p)],
            None => Seq::empty(),
        };
        let check = if gives_check(game, mv) { seq!['+'] } else { Seq::empty() };
        id + amb + x + square_name(to) + promo + check
    }
}

/// Appends a sequence of characters given as an array.
fn push_chars(s: &mut String, cs: &[char])
    ensures final(s)@ == old(s)@ + cs@,
{
    let mut i: usize = 0;
    while i < cs.len()
        invariant
            i <= cs@.len(),
            s@ == old(s)@ + cs@.subrange(0, i as int),
        decreases cs@.len() - i,
    {
        push_char(s, cs[i]);
        proof { assert(s@ =~= old(s)@ + cs@.subrange(0, i + 1)); }
        i = i + 1;
    }
    proof { assert(cs@.subrange(0, cs@.len() as int) =~= cs@); }
}

/// The text that names the moving piece.
fn piece_id(kind: PieceKind, capture: bool, from: Square) -> (r: String)
    ensures
        r@ == (if kind == PieceKind::Pawn {
            if capture { seq![square_name(from@)[0]] } else { Seq::<char>::empty() }
        } else {
            piece_letter(kind)
        }),
{
    let mut r = String::new();
    match kind {
        PieceKind::Pawn => {
            if capture {
                push_char(&mut r, from.file().notation());
            }
        },
        PieceKind::Knight => push_char(&mut r, 'N'),
        PieceKind::Bishop => push_char(&mut r, 'B'),
        PieceKind::Rook => push_char(&mut r, 'R'),
        PieceKind::Queen => push_char(&mut r, 'Q'),
        PieceKind::King => push_char(&mut r, 'K'),
    }
    proof {
        if kind != PieceKind::Pawn || capture {
            assert(r@ =~= (if kind == PieceKind::Pawn {
                seq![square_name(from@)[0]]
            } else {
                piece_letter(kind)
            }));
        }
    }
    r
}

/// The text that tells the move apart from its rivals.
fn resolution_text(resolution: AmbiguityResolution, from: Square) -> (r: String)
    ensures
        r@ == (match resolution {
            AmbiguityResolution::NotNeeded => Seq::<char>::empty(),
            AmbiguityResolution::File => seq![square_name(from@)[0]],
            AmbiguityResolution::Rank => seq![square_name(from@)[1]],
            AmbiguityResolution::Exact => square_name(from@),
        }),
{
    match resolution {
        AmbiguityResolution::NotNeeded => String::new(),
        AmbiguityResolution::File => crate::text::char_string(from.file().notation()),
        AmbiguityResolution::Rank => crate::text::char_string(from.rank().notation()),
        AmbiguityResolution::Exact => from.notation(),
    }
}

/// The text of a promotion.
fn promotion_text(promotion: Option<PromotionPieceKind>) -> (r: String)
    ensures
        r@ == (match promotion {
            Some(p) => seq!['=', promotion_letter(p)],
            None => Seq::<char>::empty(),
        }),
{
    let mut r = String::new();
    if let Some(p) = promotion {
        push_char(&mut r, '=');
        push_char(&mut r, match p {
            PromotionPieceKind::Knight => 'N',
            PromotionPieceKind::Bishop => 'B',
            PromotionPieceKind::Rook => 'R',
            PromotionPieceKind::Queen => 'Q',
        });
        proof { assert(r@ =~= seq!['=', promotion_letter(p)]); }
    }
    r
}

/// The move in Standard Algebraic Notation.
pub fn format_move(game: &Game, mv: Move) -> (r: String)
    requires
        game.wf(),
        game.board.set_of(game.player, PieceKind::King).len() == 1,
        game.board.at(mv.src_spec()) is Some,
    ensures r@ == san_spec(*game, mv),
{
    let from = mv.src();
    let to = mv.dst();
    let piece = match game.board.piece_at(from) {
        Some(p) => p,
        None => return String::new(),
    };
    let start: u8 = match game.player {
        Player::White => 4,
        Player::Black => 60,
    };
    if piece.kind == PieceKind::King && from.idx() == start {
        if to.idx() == start + 2 {
            let mut r = String::new();
            push_chars(&mut r, &['O', '-', 'O']);
            proof { assert(r@ =~= seq!['O', '-', 'O']); }
            return r;
        }
        if start >= 2 && to.idx() == start - 2 {
            let mut r = String::new();
            push_chars(&mut r, &['O', '-', 'O', '-', 'O']);
            proof { assert(r@ =~= seq!['O', '-', 'O', '-', 'O']); }
            return r;
        }
    }
    let places_opponent_in_check = gives_check_exec(game, mv);
    let captured_piece = game.board.piece_at(to);
    let is_en_passant = piece.kind == PieceKind::Pawn && match game.en_passant_target {
        Some(t) => t.idx() == to.idx(),
        None => false,
    };
    let capture_happened = captured_piece.is_some() || is_en_passant;
    let resolution = required_ambiguity_resolution(game, mv);
    let mut r = piece_id(piece.kind, capture_happened, from);
    let amb = resolution_text(resolution, from);
    crate::text::push_str(&mut r, amb.as_str());
    if capture_happened {
        push_char(&mut r, 'x');
    }
    let ghost after_x = r@;
    let to_name = to.notation();
    crate::text::push_str(&mut r, to_name.as_str());
    let promo = promotion_text(mv.promotion());
    crate::text::push_str(&mut r, promo.as_str());
    let ghost after_promo = r@;
    if places_opponent_in_check {
        push_char(&mut r, '+');
    }
    proof {
        assert(san_capture(*game, mv) == capture_happened);
        if places_opponent_in_check {
            assert(r@ =~= after_promo + seq!['+']);
        } else {
            assert(r@ =~= after_promo + Seq::<char>::empty());
        }
        if !capture_happened {
            assert(after_x =~= after_x + Seq::<char>::empty());
        }
    }
    r
}

} // verus!
