//! King safety: enemy pieces close to the king are a danger to it.

use vstd::prelude::*;
use crate::chess::board::{Board, board_sum};
use crate::chess::piece::{Piece, PieceKind};
use crate::chess::player::Player;
use crate::chess::square::{Square, file_of, rank_of, abs_diff};
use crate::engine::eval::tapered_eval::{PhasedEval, lemma_encode};

verus! {

/// How dangerous a piece near the king is.
pub open spec fn danger(kind: PieceKind) -> int {
    match kind {
        PieceKind::Queen | PieceKind::Rook => 5,
        PieceKind::Bishop | PieceKind::Knight => 2,
        _ => 0,
    }
}

/// The number of king steps along files and ranks between two squares.
pub open spec fn manhattan(a: int, b: int) -> int {
    abs_diff(file_of(a), file_of(b)) + abs_diff(rank_of(a), rank_of(b))
}

/// What an enemy piece on a square adds to the danger to `player`'s king.
pub open spec fn tropism_term(player: Player, king: int) -> spec_fn(int, Piece) -> int {
    |s: int, p: Piece| if p.player != player { (14 - manhattan(s, king)) * danger(p.kind) } else { 0 }
}

/// The tropism of `player`'s king: minus the danger of the enemy queens,
/// rooks, bishops and knights, the closer the more dangerous.
pub open spec fn tropism_spec(board: Board, player: Player, king: int) -> int {
    -board_sum(board, tropism_term(player, king), 64)
}

/// The king square of a player with one king.
pub open spec fn the_king(board: Board, player: Player) -> int {
    choose|k: int| board.set_of(player, PieceKind::King).contains(k)
}

fn tropism(board: &Board, player: Player) -> (r: i16)
    requires board.set_of(player, PieceKind::King).len() == 1,
    ensures
        r == tropism_spec(*board, player, the_king(*board, player)),
        -4480 <= r <= 0,
{
    let our_king = board.king(player).single();
    proof {
        assert(board.set_of(player, PieceKind::King).contains(our_king@));
        assert(board.set_of(player, PieceKind::King).contains(the_king(*board, player)));
    }
    let mut eval: i16 = 0;
    let mut i: usize = 0;
    while i < 64
        invariant
            i <= 64,
            our_king@ == the_king(*board, player),
            eval == board_sum(*board, tropism_term(player, our_king@), i as int),
            0 <= eval <= 70 * i,
        decreases 64 - i,
    {
        let sq = Square::from_array_index(i);
        if let Some(piece) = board.piece_at(sq) {
            if piece.player != player {
                let piece_danger: u8 = match piece.kind {
                    PieceKind::Queen | PieceKind::Rook => 5,
                    PieceKind::Bishop | PieceKind::Knight => 2,
                    _ => 0,
                };
                let d = sq.manhattan_distance_to(our_king);
                eval = eval + ((14 - d) * piece_danger) as i16;
            }
        }
        i = i + 1;
    }
    -eval
}

/// The king safety terms: White's tropism against Black's, alike in the
/// midgame and the endgame.
pub fn eval(board: &Board) -> (r: PhasedEval)
    requires
        board.set_of(Player::White, PieceKind::King).len() == 1,
        board.set_of(Player::Black, PieceKind::King).len() == 1,
    ensures
        r.mg() == tropism_spec(*board, Player::White, the_king(*board, Player::White))
            - tropism_spec(*board, Player::Black, the_king(*board, Player::Black)),
        r.eg() == r.mg(),
{
    let white_tropism = tropism(board, Player::White);
    let black_tropism = tropism(board, Player::Black);
    let mut eval = PhasedEval::zero();
    eval = eval.add(PhasedEval::uniform(white_tropism));
    eval = eval.sub(PhasedEval::uniform(black_tropism));
    proof {
        let d = white_tropism - black_tropism;
        assert(eval.0 == d * 65536 + d);
        lemma_encode(d, d);
    }
    eval
}

} // verus!
