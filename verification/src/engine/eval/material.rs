//! Material terms of the evaluation beyond the piece values.

use vstd::prelude::*;
use crate::chess::game::Game;
use crate::chess::piece::PieceKind;
use crate::chess::player::Player;
use crate::engine::eval::tapered_eval::{PhasedEval, lemma_encode};

verus! {

/// Whether a player has more than one bishop, as 1 or 0.
pub open spec fn has_bishop_pair(game: Game, player: Player) -> int {
    if game.board.set_of(player, PieceKind::Bishop).len() > 1 { 1 } else { 0 }
}

/// The bonus for the bishop pair: 27 in the midgame and 65 in the endgame
/// for White's pair, the same against White for Black's.
pub fn bishop_pair_eval(game: &Game) -> (r: PhasedEval)
    ensures
        r.mg() == 27 * (has_bishop_pair(*game, Player::White) - has_bishop_pair(*game, Player::Black)),
        r.eg() == 65 * (has_bishop_pair(*game, Player::White) - has_bishop_pair(*game, Player::Black)),
{
    let bonus = PhasedEval::new(27, 65);
    let mut bishop_pair_bonuses = PhasedEval::zero();
    if game.board.bishops(Player::White).count() > 1 {
        bishop_pair_bonuses = bishop_pair_bonuses.add(bonus);
    }
    if game.board.bishops(Player::Black).count() > 1 {
        bishop_pair_bonuses = bishop_pair_bonuses.sub(bonus);
    }
    proof {
        let d = has_bishop_pair(*game, Player::White) - has_bishop_pair(*game, Player::Black);
        assert(bishop_pair_bonuses.0 == 65 * d * 65536 + 27 * d);
        lemma_encode(27 * d, 65 * d);
    }
    bishop_pair_bonuses
}

/// The material terms: the bishop pair.
pub fn eval(game: &Game) -> (r: PhasedEval)
    ensures
        r.mg() == 27 * (has_bishop_pair(*game, Player::White) - has_bishop_pair(*game, Player::Black)),
        r.eg() == 65 * (has_bishop_pair(*game, Player::White) - has_bishop_pair(*game, Player::Black)),
{
    bishop_pair_eval(game)
}

} // verus!
