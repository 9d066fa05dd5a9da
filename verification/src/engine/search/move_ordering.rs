//! The order in which the search tries moves: the best move of an earlier
//! search first, then captures (most valuable victim first, least valuable
//! attacker first among equals), the killer moves, and the quiet moves by
//! their history score.

use vstd::prelude::*;
use crate::chess::game::Game;
use crate::chess::moves::Move;
use crate::chess::piece::PieceKind;
use crate::chess::player::Player;
use crate::engine::search::tables::HistoryTable;

verus! {

pub const PREVIOUS_BEST_MOVE_SCORE: i32 = 200_000;
pub const CAPTURE_SCORE: i32 = 100_000;
pub const KILLER_MOVE_1_SCORE: i32 = 90001;
pub const KILLER_MOVE_2_SCORE: i32 = 90000;
pub const QUIET_SCORE: i32 = 0;

/// The order of victims, least valuable first.
pub const MVV_ORDER: [i32; 6] = [0, 6, 12, 18, 24, 30];

/// The order of attackers, most valuable last.
pub const LVA_ORDER: [i32; 6] = [5, 4, 3, 2, 1, 0];

/// The score of a move, given the history score of its squares.
pub open spec fn move_score(
    game: Game,
    mv: Move,
    previous_best_move: Option<Move>,
    killer_moves: [Option<Move>; 2],
    history: int,
) -> int {
    if previous_best_move == Some(mv) {
        PREVIOUS_BEST_MOVE_SCORE as int
    } else if killer_moves[0] == Some(mv) {
        KILLER_MOVE_1_SCORE as int
    } else if killer_moves[1] == Some(mv) {
        KILLER_MOVE_2_SCORE as int
    } else if game.board.at(mv.dst_spec()) is Some {
        let victim = game.board.at(mv.dst_spec())->0.kind;
        let attacker = game.board.at(mv.src_spec())->0.kind;
        CAPTURE_SCORE + MVV_ORDER[victim.idx()] + LVA_ORDER[attacker.idx()]
    } else {
        QUIET_SCORE + history
    }
}

/// Whether two optional moves are the same.
fn same_move(a: Option<Move>, b: Move) -> (r: bool)
    ensures r == (a == Some(b)),
{
    match a {
        Some(m) => m == b,
        None => false,
    }
}

/// The score of a move, given the history score of its squares.
fn score_with_history(
    game: &Game,
    mv: Move,
    previous_best_move: Option<Move>,
    killer_moves: [Option<Move>; 2],
    history: i32,
) -> (r: i32)
    requires game.board.at(mv.dst_spec()) is Some ==> game.board.at(mv.src_spec()) is Some,
    ensures r == move_score(*game, mv, previous_best_move, killer_moves, history as int),
{
    if same_move(previous_best_move, mv) {
        return PREVIOUS_BEST_MOVE_SCORE;
    }
    if same_move(killer_moves[0], mv) {
        return KILLER_MOVE_1_SCORE;
    }
    if same_move(killer_moves[1], mv) {
        return KILLER_MOVE_2_SCORE;
    }
    if let Some(captured_piece) = game.board.piece_at(mv.dst()) {
        let moved_piece = match game.board.piece_at(mv.src()) {
            Some(p) => p,
            None => return 0,
        };
        let victim_score = MVV_ORDER[captured_piece.kind.array_idx()];
        let attacker_score = LVA_ORDER[moved_piece.kind.array_idx()];
        let mvv_lva = victim_score + attacker_score;
        return CAPTURE_SCORE + mvv_lva;
    }
    QUIET_SCORE + history
}

/// The score of a move for ordering, with the history scores of the
/// player to move by source and destination square.
pub fn score_move(
    game: &Game,
    mv: Move,
    previous_best_move: Option<Move>,
    killer_moves: [Option<Move>; 2],
    history: &[[i32; 64]; 64],
) -> (r: i32)
    requires game.board.at(mv.dst_spec()) is Some ==> game.board.at(mv.src_spec()) is Some,
    ensures r == move_score(*game, mv, previous_best_move, killer_moves, history[mv.src_spec()][mv.dst_spec()] as int),
{
    let h = history[mv.src().array_idx()][mv.dst().array_idx()];
    score_with_history(game, mv, previous_best_move, killer_moves, h)
}

/// The score of a move for ordering, with the history scores of a table.
pub fn score_move_with_table(
    game: &Game,
    mv: Move,
    previous_best_move: Option<Move>,
    killer_moves: [Option<Move>; 2],
    history: &HistoryTable,
) -> (r: i32)
    requires
        game.board.at(mv.dst_spec()) is Some ==> game.board.at(mv.src_spec()) is Some,
        history.wf(),
    ensures
        r == move_score(*game, mv, previous_best_move, killer_moves,
            history.score(game.player, mv.src_spec(), mv.dst_spec())),
{
    let h = history.get(game.player, mv);
    score_with_history(game, mv, previous_best_move, killer_moves, h)
}

} // verus!
