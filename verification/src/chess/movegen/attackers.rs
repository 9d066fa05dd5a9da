//! The pieces that attack a square.

use vstd::prelude::*;
use crate::chess::bitboard::Bitboard;
use crate::chess::board::Board;
use crate::chess::movegen::tables;
use crate::chess::movegen::tables::attacks::{
    bishop_attack_set, rook_attack_set, knight_attack_set, king_attack_set, pawn_attack_set,
    ray_attacks, opposite, lemma_ray_symmetric, ray_ok, ray_sq,
};
use crate::chess::direction::Direction;
use crate::chess::square::{file_of, rank_of};
use crate::chess::bitboard::forward_dr;
use crate::chess::piece::{Piece, PieceKind};
use crate::chess::player::Player;
use crate::chess::square::{Square, on_board};

verus! {

/// The squares of `player`'s opponent's pieces that attack `s`: a piece
/// attacks `s` when a piece of the same kind of `player` standing on `s`
/// would attack the piece's square.
pub open spec fn attackers_spec(board: Board, player: Player, s: int) -> Set<int> {
    let them = player.opponent();
    let occ = board.occupied_set();
    pawn_attack_set(s, player).intersect(board.set_of(them, PieceKind::Pawn))
        .union(knight_attack_set(s).intersect(board.set_of(them, PieceKind::Knight)))
        .union(bishop_attack_set(s, occ).intersect(
            board.set_of(them, PieceKind::Bishop).union(board.set_of(them, PieceKind::Queen)),
        ))
        .union(rook_attack_set(s, occ).intersect(
            board.set_of(them, PieceKind::Rook).union(board.set_of(them, PieceKind::Queen)),
        ))
        .union(king_attack_set(s).intersect(board.set_of(them, PieceKind::King)))
}

/// The squares of a placement holding `player`'s pieces of a kind.
pub open spec fn placed_set(pl: Seq<Option<Piece>>, player: Player, kind: PieceKind) -> Set<int> {
    Set::new(|s: int| on_board(s) && pl[s] == Some(Piece { player, kind }))
}

/// The occupied squares of a placement.
pub open spec fn placed_occupied(pl: Seq<Option<Piece>>) -> Set<int> {
    Set::new(|s: int| on_board(s) && pl[s] is Some)
}

/// The squares of the pieces of `player`'s opponent that attack `s` in a
/// placement of pieces on the squares.
pub open spec fn attackers_in(pl: Seq<Option<Piece>>, player: Player, s: int) -> Set<int> {
    let them = player.opponent();
    let occ = placed_occupied(pl);
    pawn_attack_set(s, player).intersect(placed_set(pl, them, PieceKind::Pawn))
        .union(knight_attack_set(s).intersect(placed_set(pl, them, PieceKind::Knight)))
        .union(bishop_attack_set(s, occ).intersect(
            placed_set(pl, them, PieceKind::Bishop).union(placed_set(pl, them, PieceKind::Queen)),
        ))
        .union(rook_attack_set(s, occ).intersect(
            placed_set(pl, them, PieceKind::Rook).union(placed_set(pl, them, PieceKind::Queen)),
        ))
        .union(king_attack_set(s).intersect(placed_set(pl, them, PieceKind::King)))
}

/// The attackers of a square depend on the board only through its placement.
pub proof fn lemma_attackers_in(board: Board, player: Player, s: int)
    ensures attackers_spec(board, player, s) == attackers_in(board.placement(), player, s),
{
    let pl = board.placement();
    assert(board.occupied_set() =~= placed_occupied(pl));
    assert forall|p: Player, k: PieceKind| #[trigger] board.set_of(p, k) == placed_set(pl, p, k) by {
        assert(board.set_of(p, k) =~= placed_set(pl, p, k));
    }
}

/// The squares of the pieces of either player that attack `s`, with the
/// squares of `occupied` taken as the occupied ones for sliding pieces.
pub open spec fn all_attackers_spec(board: Board, s: int, occupied: Set<int>) -> Set<int> {
    pawn_attack_set(s, Player::White).intersect(board.set_of(Player::Black, PieceKind::Pawn))
        .union(pawn_attack_set(s, Player::Black).intersect(board.set_of(Player::White, PieceKind::Pawn)))
        .union(knight_attack_set(s).intersect(board.kind_set(PieceKind::Knight)))
        .union(bishop_attack_set(s, occupied).intersect(
            board.kind_set(PieceKind::Bishop).union(board.kind_set(PieceKind::Queen)),
        ))
        .union(rook_attack_set(s, occupied).intersect(
            board.kind_set(PieceKind::Rook).union(board.kind_set(PieceKind::Queen)),
        ))
        .union(king_attack_set(s).intersect(board.kind_set(PieceKind::King)))
}

/// Whether a piece `q` standing on `s` attacks `t` when the squares of
/// `occ` are occupied: a pawn one step diagonally forward, a knight by its
/// jump, a king next to it, and a bishop, rook or queen along its lines with
/// no occupied square strictly between.
pub open spec fn piece_attacks(q: Piece, s: int, t: int, occ: Set<int>) -> bool {
    match q.kind {
        PieceKind::Pawn => pawn_attack_set(s, q.player).contains(t),
        PieceKind::Knight => knight_attack_set(s).contains(t),
        PieceKind::Bishop => bishop_attack_set(s, occ).contains(t),
        PieceKind::Rook => rook_attack_set(s, occ).contains(t),
        PieceKind::Queen => bishop_attack_set(s, occ).contains(t) || rook_attack_set(s, occ).contains(t),
        PieceKind::King => king_attack_set(s).contains(t),
    }
}

/// A slider on `t` attacks `s` along one of four directions exactly when
/// one on `s` attacks `t` along one of the opposite four.
proof fn lemma_lines_symmetric(t: int, s: int, occ: Set<int>, d1: Direction, d2: Direction, d3: Direction, d4: Direction)
    requires
        on_board(t),
        on_board(s),
        opposite(opposite(d1)) == d1,
        opposite(opposite(d2)) == d2,
        opposite(opposite(d3)) == d3,
        opposite(opposite(d4)) == d4,
    ensures
        (ray_attacks(t, d1, occ, s) || ray_attacks(t, d2, occ, s) || ray_attacks(t, d3, occ, s) || ray_attacks(t, d4, occ, s))
            <==> (ray_attacks(s, opposite(d1), occ, t) || ray_attacks(s, opposite(d2), occ, t)
                || ray_attacks(s, opposite(d3), occ, t) || ray_attacks(s, opposite(d4), occ, t)),
{
    if ray_attacks(t, d1, occ, s) { lemma_ray_symmetric(t, d1, occ, s); }
    if ray_attacks(t, d2, occ, s) { lemma_ray_symmetric(t, d2, occ, s); }
    if ray_attacks(t, d3, occ, s) { lemma_ray_symmetric(t, d3, occ, s); }
    if ray_attacks(t, d4, occ, s) { lemma_ray_symmetric(t, d4, occ, s); }
    if ray_attacks(s, opposite(d1), occ, t) { lemma_ray_symmetric(s, opposite(d1), occ, t); }
    if ray_attacks(s, opposite(d2), occ, t) { lemma_ray_symmetric(s, opposite(d2), occ, t); }
    if ray_attacks(s, opposite(d3), occ, t) { lemma_ray_symmetric(s, opposite(d3), occ, t); }
    if ray_attacks(s, opposite(d4), occ, t) { lemma_ray_symmetric(s, opposite(d4), occ, t); }
}

/// The attackers of a square are the squares of the opponent's pieces that
/// attack it by their own moves: a pawn one step diagonally forward for its
/// side, a knight by its jump, a king next to it, a bishop, rook or queen
/// along its lines with no occupied square strictly between.
pub proof fn law_attackers_are_the_pieces_that_attack(board: Board, player: Player, t: int)
    requires on_board(t),
    ensures
        forall|s: int| #[trigger] attackers_spec(board, player, t).contains(s) <==> (on_board(s)
            && board.at(s) is Some && board.at(s)->0.player == player.opponent()
            && piece_attacks(board.at(s)->0, s, t, board.occupied_set())),
{
    let occ = board.occupied_set();
    let them = player.opponent();
    assert forall|s: int| #[trigger] attackers_spec(board, player, t).contains(s) <==> (on_board(s)
        && board.at(s) is Some && board.at(s)->0.player == them
        && piece_attacks(board.at(s)->0, s, t, occ)) by {
        if on_board(s) {
            lemma_lines_symmetric(t, s, occ, Direction::NorthEast, Direction::SouthEast, Direction::SouthWest, Direction::NorthWest);
            lemma_lines_symmetric(t, s, occ, Direction::North, Direction::East, Direction::South, Direction::West);
            assert(forward_dr(them) == -forward_dr(player));
        }
        if attackers_spec(board, player, t).contains(s) {
            assert(on_board(s));
        }
    }
}

/// A slider's line from `t` does not depend on whether `t` itself is
/// occupied, and never ends on `t`.
proof fn lemma_ray_ignores_origin(t: int, d: Direction, occ1: Set<int>, occ2: Set<int>, s: int)
    requires forall|x: int| x != t ==> occ1.contains(x) == occ2.contains(x),
    ensures
        ray_attacks(t, d, occ1, s) == ray_attacks(t, d, occ2, s),
        ray_attacks(t, d, occ1, s) ==> s != t,
{
    assert forall|m: int| 1 <= m < 8 implies #[trigger] ray_sq(t, d.df(), d.dr(), m) != t by {}
    if ray_attacks(t, d, occ1, s) {
        let n = choose|n: int| 1 <= n < 8 && ray_ok(t, d.df(), d.dr(), n) && s == ray_sq(t, d.df(), d.dr(), n)
            && (forall|m: int| 1 <= m < n ==> !occ1.contains(#[trigger] ray_sq(t, d.df(), d.dr(), m)));
        assert forall|m: int| 1 <= m < n implies !occ2.contains(#[trigger] ray_sq(t, d.df(), d.dr(), m)) by {
            assert(ray_sq(t, d.df(), d.dr(), m) != t);
        }
    }
    if ray_attacks(t, d, occ2, s) {
        let n = choose|n: int| 1 <= n < 8 && ray_ok(t, d.df(), d.dr(), n) && s == ray_sq(t, d.df(), d.dr(), n)
            && (forall|m: int| 1 <= m < n ==> !occ2.contains(#[trigger] ray_sq(t, d.df(), d.dr(), m)));
        assert forall|m: int| 1 <= m < n implies !occ1.contains(#[trigger] ray_sq(t, d.df(), d.dr(), m)) by {
            assert(ray_sq(t, d.df(), d.dr(), m) != t);
        }
    }
}

/// The attackers of a square do not depend on what stands on it.
pub proof fn lemma_attackers_ignore_target(pl1: Seq<Option<Piece>>, pl2: Seq<Option<Piece>>, player: Player, t: int)
    requires
        on_board(t),
        forall|x: int| 0 <= x < 64 && x != t ==> pl1[x] == pl2[x],
    ensures attackers_in(pl1, player, t) == attackers_in(pl2, player, t),
{
    let occ1 = placed_occupied(pl1);
    let occ2 = placed_occupied(pl2);
    assert forall|x: int| x != t implies occ1.contains(x) == occ2.contains(x) by {}
    assert forall|s: int| attackers_in(pl1, player, t).contains(s) == attackers_in(pl2, player, t).contains(s) by {
        lemma_ray_ignores_origin(t, Direction::North, occ1, occ2, s);
        lemma_ray_ignores_origin(t, Direction::NorthEast, occ1, occ2, s);
        lemma_ray_ignores_origin(t, Direction::East, occ1, occ2, s);
        lemma_ray_ignores_origin(t, Direction::SouthEast, occ1, occ2, s);
        lemma_ray_ignores_origin(t, Direction::South, occ1, occ2, s);
        lemma_ray_ignores_origin(t, Direction::SouthWest, occ1, occ2, s);
        lemma_ray_ignores_origin(t, Direction::West, occ1, occ2, s);
        lemma_ray_ignores_origin(t, Direction::NorthWest, occ1, occ2, s);
    }
    assert(attackers_in(pl1, player, t) =~= attackers_in(pl2, player, t));
}

/// The pieces of `player`'s opponent that attack `square`.
pub fn generate_attackers_of(board: &Board, player: Player, square: Square) -> (attackers: Bitboard)
    ensures attackers@ =~= attackers_spec(*board, player, square@),
{
    let mut attackers = Bitboard::empty();
    let them = player.other();
    let all_pieces = board.occupancy();

    // Pawns: A square is attacked by pawns in the same positions as a pawn could capture if it was on
    // that square
    attackers = attackers.or(tables::pawn_attacks(square, player).and(board.pawns(them)));

    // Knights: A square is attacked by any squares a knight could reach if it were on that square
    attackers = attackers.or(tables::knight_attacks(square).and(board.knights(them)));

    // Sliders: A square is attacked by any squares sliding pieces can reach
    attackers = attackers.or(tables::bishop_attacks(square, all_pieces).and(board.diagonal_sliders(them)));
    attackers = attackers.or(tables::rook_attacks(square, all_pieces).and(board.orthogonal_sliders(them)));

    attackers = attackers.or(tables::king_attacks(square).and(board.king(them)));

    attackers
}

/// The pieces of either player that attack `square`, treating `occupied` as
/// the occupied squares.
pub fn all_attackers_of(board: &Board, square: Square, occupied: Bitboard) -> (attackers: Bitboard)
    ensures attackers@ =~= all_attackers_spec(*board, square@, occupied@),
{
    let mut attackers = Bitboard::empty();

    attackers = attackers.or(tables::pawn_attacks(square, Player::White).and(board.pawns(Player::Black)));
    attackers = attackers.or(tables::pawn_attacks(square, Player::Black).and(board.pawns(Player::White)));

    attackers = attackers.or(tables::knight_attacks(square).and(board.all_knights()));
    attackers = attackers.or(tables::bishop_attacks(square, occupied).and(board.all_diagonal_sliders()));
    attackers = attackers.or(tables::rook_attacks(square, occupied).and(board.all_orthogonal_sliders()));
    attackers = attackers.or(tables::king_attacks(square).and(board.all_kings()));

    attackers
}

} // verus!
