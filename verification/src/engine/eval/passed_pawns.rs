//! Passed pawns: pawns that no enemy pawn can stop and no own pawn blocks.

use vstd::prelude::*;
use crate::chess::bitboard::Bitboard;
use crate::chess::board::{Board, board_sum};
use crate::chess::piece::{Piece, PieceKind};
use crate::chess::player::Player;
use crate::chess::square::{Square, file_of, rank_of, on_board, abs_diff};
use crate::engine::eval::tapered_eval::{PhasedEval, lemma_encode};

verus! {

/// The bonus of a passed pawn, midgame and endgame, by its distance in
/// ranks from promotion.
pub const PASSED_PAWN_BONUSES: [(i16, i16); 8] = [
    (0, 0),
    (260, 280),
    (53, 176),
    (19, 84),
    (-15, 43),
    (-15, 12),
    (-1, 5),
    (0, 0),
];

/// Whether rank `to` lies ahead of rank `from` for the player.
pub open spec fn is_ahead(player: Player, from: int, to: int) -> bool {
    if player == Player::White { to > from } else { to < from }
}

/// Whether a pawn of the player on `s` can be stopped at all: not on the
/// player's back rank (where no pawn stands) nor one step from promotion.
pub open spec fn masks_apply(player: Player, s: int) -> bool {
    let r = rank_of(s);
    if player == Player::White { r != 0 && r != 6 } else { r != 7 && r != 1 }
}

/// The squares where an enemy pawn stops a pawn on `s`: ahead of it on its
/// file and the files beside.
pub open spec fn enemy_mask(player: Player, s: int) -> Set<int> {
    if !masks_apply(player, s) {
        Set::empty()
    } else {
        Set::new(|t: int| on_board(t) && abs_diff(file_of(t), file_of(s)) <= 1 && is_ahead(player, rank_of(s), rank_of(t)))
    }
}

/// The squares where an own pawn blocks a pawn on `s`: ahead of it on its file.
pub open spec fn own_mask(player: Player, s: int) -> Set<int> {
    if !masks_apply(player, s) {
        Set::empty()
    } else {
        Set::new(|t: int| on_board(t) && file_of(t) == file_of(s) && is_ahead(player, rank_of(s), rank_of(t)))
    }
}

/// Whether a pawn of the player on `s` is passed.
pub open spec fn is_passed(board: Board, player: Player, s: int) -> bool {
    &&& enemy_mask(player, s).intersect(board.set_of(player.opponent(), PieceKind::Pawn)).is_empty()
    &&& own_mask(player, s).intersect(board.set_of(player, PieceKind::Pawn)).is_empty()
}

/// The distance in ranks from a square to the player's promotion rank.
pub open spec fn promotion_distance(player: Player, s: int) -> int {
    if player == Player::White { 7 - rank_of(s) } else { rank_of(s) }
}

/// The bonus of a passed pawn at a distance from promotion, endgame or midgame.
pub open spec fn bonus(d: int, endgame: bool) -> int {
    if endgame { PASSED_PAWN_BONUSES[d].1 as int } else { PASSED_PAWN_BONUSES[d].0 as int }
}

/// What a square adds to the passed pawn bonus of the player.
pub open spec fn passed_term(board: Board, player: Player, endgame: bool) -> spec_fn(int, Piece) -> int {
    |s: int, p: Piece|
        if p == (Piece { player, kind: PieceKind::Pawn }) && is_passed(board, player, s) {
            bonus(promotion_distance(player, s), endgame)
        } else {
            0
        }
}

/// The masks that decide whether a pawn is passed.
pub struct PassedPawnMasks {
    /// No enemy pawn may stand on these squares.
    pub enemy_pawns_mask: Bitboard,
    /// No own pawn may stand on these squares.
    pub own_pawns_blockers_mask: Bitboard,
}

impl PassedPawnMasks {
    /// Masks that forbid nothing.
    pub fn empty() -> (r: Self)
        ensures
            r.enemy_pawns_mask@ == Set::<int>::empty(),
            r.own_pawns_blockers_mask@ == Set::<int>::empty(),
    {
        PassedPawnMasks { enemy_pawns_mask: Bitboard::empty(), own_pawns_blockers_mask: Bitboard::empty() }
    }
}

/// The masks for a pawn of the player on `square`.
pub fn generate_passed_pawn_masks(player: Player, square: Square) -> (r: PassedPawnMasks)
    ensures
        r.enemy_pawns_mask@ =~= enemy_mask(player, square@),
        r.own_pawns_blockers_mask@ =~= own_mask(player, square@),
{
    let r = square.idx() / 8;
    let f = square.idx() % 8;
    let applies = match player {
        Player::White => r != 0 && r != 6,
        Player::Black => r != 7 && r != 1,
    };
    let mut enemy = Bitboard::empty();
    let mut own = Bitboard::empty();
    if !applies {
        return PassedPawnMasks { enemy_pawns_mask: enemy, own_pawns_blockers_mask: own };
    }
    let mut t: u8 = 0;
    while t < 64
        invariant
            t <= 64,
            r == rank_of(square@),
            f == file_of(square@),
            masks_apply(player, square@),
            forall|x: int| #[trigger] enemy@.contains(x) <==> (0 <= x < t && abs_diff(file_of(x), f as int) <= 1
                && is_ahead(player, r as int, rank_of(x))),
            forall|x: int| #[trigger] own@.contains(x) <==> (0 <= x < t && file_of(x) == f as int && is_ahead(player, r as int, rank_of(x))),
        decreases 64 - t,
    {
        let tf = t % 8;
        let tr = t / 8;
        let ahead = match player {
            Player::White => tr > r,
            Player::Black => tr < r,
        };
        let near = (tf <= f && f - tf <= 1) || (tf > f && tf - f <= 1);
        let sq = Square::from_index(t);
        if ahead && near {
            enemy.set_inplace(sq);
        }
        let ghost old_own = own@;
        if ahead && tf == f {
            own.set_inplace(sq);
        }
        proof {
            assert(ahead == is_ahead(player, r as int, rank_of(t as int)));
            assert(file_of(t as int) == tf);
            assert forall|x: int| own@.contains(x) <==> (0 <= x < t + 1 && file_of(x) == f as int && is_ahead(player, r as int, rank_of(x))) by {
                if x == t {
                    if ahead && tf == f {
                        assert(own@.contains(x));
                    } else {
                        assert(!old_own.contains(x));
                        assert(own@ == old_own);
                    }
                } else {
                    assert(own@.contains(x) == old_own.contains(x));
                    assert(old_own.contains(x) <==> (0 <= x < t && file_of(x) == f as int && is_ahead(player, r as int, rank_of(x))));
                }
            }
        }
        t = t + 1;
    }
    PassedPawnMasks { enemy_pawns_mask: enemy, own_pawns_blockers_mask: own }
}

/// The passed pawn bonus of one player, midgame and endgame.
fn calculate_passed_pawn_bonus(board: &Board, player: Player) -> (r: (i32, i32))
    ensures
        r.0 == board_sum(*board, passed_term(*board, player, false), 64),
        r.1 == board_sum(*board, passed_term(*board, player, true), 64),
        -15 * 64 <= r.0 <= 260 * 64,
        0 <= r.1 <= 280 * 64,
{
    let our_pawns = board.pawns(player);
    let their_pawns = board.pawns(player.other());
    let mut mg: i32 = 0;
    let mut eg: i32 = 0;
    let mut i: usize = 0;
    while i < 64
        invariant
            i <= 64,
            our_pawns@ =~= board.set_of(player, PieceKind::Pawn),
            their_pawns@ =~= board.set_of(player.opponent(), PieceKind::Pawn),
            mg == board_sum(*board, passed_term(*board, player, false), i as int),
            eg == board_sum(*board, passed_term(*board, player, true), i as int),
            -15 * i <= mg <= 260 * i,
            0 <= eg <= 280 * i,
        decreases 64 - i,
    {
        let sq = Square::from_array_index(i);
        if let Some(piece) = board.piece_at(sq) {
            if piece.player == player && piece.kind == PieceKind::Pawn {
                let masks = generate_passed_pawn_masks(player, sq);
                if masks.enemy_pawns_mask.and(their_pawns).is_empty()
                    && masks.own_pawns_blockers_mask.and(our_pawns).is_empty()
                {
                    let d: usize = match player {
                        Player::White => 7 - i / 8,
                        Player::Black => i / 8,
                    };
                    let (bm, be) = PASSED_PAWN_BONUSES[d];
                    mg = mg + bm as i32;
                    eg = eg + be as i32;
                }
            }
        }
        i = i + 1;
    }
    (mg, eg)
}

/// The passed pawn terms: White's bonus against Black's.
pub fn eval(board: &Board) -> (r: PhasedEval)
    ensures
        r.mg() == board_sum(*board, passed_term(*board, Player::White, false), 64)
            - board_sum(*board, passed_term(*board, Player::Black, false), 64),
        r.eg() == board_sum(*board, passed_term(*board, Player::White, true), 64)
            - board_sum(*board, passed_term(*board, Player::Black, true), 64),
{
    let (white_mg, white_eg) = calculate_passed_pawn_bonus(board, Player::White);
    let (black_mg, black_eg) = calculate_passed_pawn_bonus(board, Player::Black);
    PhasedEval::new((white_mg - black_mg) as i16, (white_eg - black_eg) as i16)
}

} // verus!
