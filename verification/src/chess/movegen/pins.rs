//! Pinned pieces: pieces of the player to move that stand between their own
//! king and an enemy slider, and so may only move along that line.

use vstd::prelude::*;
use crate::chess::bitboard::Bitboard;
use crate::chess::board::Board;
use crate::chess::movegen::tables::{bishop_attacks, rook_attacks, between, between_set};
use crate::chess::movegen::tables::attacks::{bishop_attack_set, rook_attack_set};
use crate::chess::piece::PieceKind;
use crate::chess::player::Player;
use crate::chess::square::Square;

verus! {

/// The squares of the pinning pieces together with the squares between each
/// of them and the king.
pub open spec fn pin_rays(king: int, pinners: Set<int>) -> Set<int> {
    Set::new(|t: int| exists|p: int| #[trigger] pinners.contains(p) && (t == p || between_set(king, p).contains(t)))
}

/// The enemy rooks and queens that would attack the king on `king` if the
/// player's own pieces in their way were lifted.
pub open spec fn orthogonal_pinners(board: Board, player: Player, king: int) -> Set<int> {
    let us = board.player_set(player);
    let occ = board.occupied_set();
    let shield = rook_attack_set(king, occ).intersect(us);
    let them = player.opponent();
    rook_attack_set(king, occ.difference(shield)).intersect(
        board.set_of(them, PieceKind::Rook).union(board.set_of(them, PieceKind::Queen)),
    )
}

/// The enemy bishops and queens that would attack the king on `king` if the
/// player's own pieces in their way were lifted.
pub open spec fn diagonal_pinners(board: Board, player: Player, king: int) -> Set<int> {
    let us = board.player_set(player);
    let occ = board.occupied_set();
    let shield = bishop_attack_set(king, occ).intersect(us);
    let them = player.opponent();
    bishop_attack_set(king, occ.difference(shield)).intersect(
        board.set_of(them, PieceKind::Bishop).union(board.set_of(them, PieceKind::Queen)),
    )
}

/// The orthogonal pin rays of `player`'s king on `king`.
pub open spec fn orthogonal_pins(board: Board, player: Player, king: int) -> Set<int> {
    pin_rays(king, orthogonal_pinners(board, player, king))
}

/// The diagonal pin rays of `player`'s king on `king`.
pub open spec fn diagonal_pins(board: Board, player: Player, king: int) -> Set<int> {
    pin_rays(king, diagonal_pinners(board, player, king))
}

/// The union of the pinners' squares and the squares between them and the king.
fn ray_union(king: Square, pinners: Bitboard) -> (r: Bitboard)
    ensures r@ =~= pin_rays(king@, pinners@),
{
    let srcs = pinners.squares();
    let mut r = Bitboard::empty();
    let mut i: usize = 0;
    while i < srcs.len()
        invariant
            i <= srcs.len(),
            forall|k: int| 0 <= k < srcs.len() ==> pinners@.contains(#[trigger] srcs[k]@),
            forall|t: int| r@.contains(t) <==> exists|j: int| 0 <= j < i && (t == #[trigger] srcs[j]@ || between_set(king@, srcs[j]@).contains(t)),
        decreases srcs.len() - i,
    {
        let p = srcs[i];
        let ghost old_r = r@;
        r = r.or(p.bb()).or(between(king, p));
        proof {
            assert forall|t: int| r@.contains(t) <==> exists|j: int| 0 <= j < i + 1 && (t == #[trigger] srcs[j]@ || between_set(king@, srcs[j]@).contains(t)) by {
                if r@.contains(t) && !old_r.contains(t) {
                    assert(t == srcs[i as int]@ || between_set(king@, srcs[i as int]@).contains(t));
                }
                if exists|j: int| 0 <= j < i + 1 && (t == #[trigger] srcs[j]@ || between_set(king@, srcs[j]@).contains(t)) {
                    let j = choose|j: int| 0 <= j < i + 1 && (t == #[trigger] srcs[j]@ || between_set(king@, srcs[j]@).contains(t));
                    if j < i {
                        assert(old_r.contains(t));
                    }
                }
            }
        }
        i = i + 1;
    }
    proof {
        assert forall|t: int| r@.contains(t) <==> #[trigger] pin_rays(king@, pinners@).contains(t) by {
            if r@.contains(t) {
                let j = choose|j: int| 0 <= j < srcs.len() && (t == #[trigger] srcs[j]@ || between_set(king@, srcs[j]@).contains(t));
                assert(pinners@.contains(srcs[j]@));
            }
            if pin_rays(king@, pinners@).contains(t) {
                let p = choose|p: int| #[trigger] pinners@.contains(p) && (t == p || between_set(king@, p).contains(t));
                let j = choose|j: int| 0 <= j < srcs.len() && #[trigger] srcs[j]@ == p;
                assert(t == srcs[j]@ || between_set(king@, srcs[j]@).contains(t));
            }
        }
    }
    r
}

/// The orthogonal and diagonal pin rays of `player`'s king on `king_square`:
/// the squares of each enemy slider that pins one of `player`'s pieces to the
/// king, and the squares between that slider and the king.
pub fn get_pins(board: &Board, player: Player, king_square: Square) -> (r: (Bitboard, Bitboard))
    ensures
        r.0@ =~= orthogonal_pins(*board, player, king_square@),
        r.1@ =~= diagonal_pins(*board, player, king_square@),
{
    let them = player.other();
    let our_pieces = board.occupancy_for(player);
    let all_pieces = board.occupancy();

    let potential_orthogonal_pinned = rook_attacks(king_square, all_pieces).and(our_pieces);
    let without_orthogonal = all_pieces.without(potential_orthogonal_pinned);
    let orthogonal_pinners = rook_attacks(king_square, without_orthogonal).and(board.orthogonal_sliders(them));

    let potential_diagonal_pinned = bishop_attacks(king_square, all_pieces).and(our_pieces);
    let without_diagonal = all_pieces.without(potential_diagonal_pinned);
    let diagonal_pinners = bishop_attacks(king_square, without_diagonal).and(board.diagonal_sliders(them));

    (ray_union(king_square, orthogonal_pinners), ray_union(king_square, diagonal_pinners))
}

} // verus!
