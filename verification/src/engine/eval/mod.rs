//! Static evaluation of positions.

use vstd::prelude::*;
use crate::chess::board::{Board, lemma_board_sum_update};
use crate::chess::piece::Piece;
use crate::chess::square::Square;
use crate::engine::eval::piece_square_tables::{
    pst_sum, pst_term, contribution, occupied_count, count_term, lemma_pst_sum_bound,
    lemma_contribution_bound,
};
use crate::engine::eval::tapered_eval::{
    PhasedEval, phase_sum, phase_term, phase_contribution, lemma_phase_sum_bounds, taper_spec, mg_of, eg_of,
    clamp_i16,
};
use crate::engine::eval::player_eval::{Eval, seen_by};
use crate::engine::eval::white_eval::WhiteEval;
use crate::chess::game::Game;

pub mod piece_square_tables;
pub mod player_eval;
pub mod tapered_eval;
pub mod white_eval;
pub mod material;
pub mod king_safety;
pub mod passed_pawns;
pub mod trace;

verus! {

/// The parts of the evaluation that are kept up to date move by move.
#[derive(Debug, Clone, Copy)]
pub struct IncrementalEvalFields {
    pub phase_value: i16,
    pub piece_square_tables: PhasedEval,
}

impl IncrementalEvalFields {
    /// Whether the fields hold the values of `board`.
    pub open spec fn matches(self, board: Board) -> bool {
        &&& self.phase_value == phase_sum(board, 64)
        &&& self.piece_square_tables.0 == pst_sum(board, 64)
    }

    /// Accounts for a piece put on a square.
    pub fn set_at(&mut self, sq: Square, piece: Piece)
        requires
            i16::MIN <= old(self).phase_value + phase_contribution(piece.kind) <= i16::MAX,
            i32::MIN <= old(self).piece_square_tables.0 + contribution(sq@, piece) <= i32::MAX,
        ensures
            final(self).phase_value == old(self).phase_value + phase_contribution(piece.kind),
            final(self).piece_square_tables.0 == old(self).piece_square_tables.0 + contribution(sq@, piece),
    {
        self.phase_value = self.phase_value + tapered_eval::piece_phase_value_contribution(piece.kind);
        self.piece_square_tables.add_assign(piece_square_tables::piece_contributions(sq, piece));
    }

    /// Accounts for a piece taken off a square.
    pub fn remove_at(&mut self, sq: Square, piece: Piece)
        requires
            i16::MIN <= old(self).phase_value - phase_contribution(piece.kind) <= i16::MAX,
            i32::MIN <= old(self).piece_square_tables.0 - contribution(sq@, piece) <= i32::MAX,
        ensures
            final(self).phase_value == old(self).phase_value - phase_contribution(piece.kind),
            final(self).piece_square_tables.0 == old(self).piece_square_tables.0 - contribution(sq@, piece),
    {
        self.phase_value = self.phase_value - tapered_eval::piece_phase_value_contribution(piece.kind);
        self.piece_square_tables.sub_assign(piece_square_tables::piece_contributions(sq, piece));
    }

    /// The fields of a board, computed from scratch.
    pub fn init(board: &Board) -> (r: Self)
        requires occupied_count(*board, 64) <= 32,
        ensures r.matches(*board),
    {
        let phase_value = tapered_eval::phase_value(board);
        proof { piece_square_tables::lemma_sums_fit(*board); }
        let piece_square_tables = piece_square_tables::eval(board);
        IncrementalEvalFields { phase_value, piece_square_tables }
    }
}

/// Takes a piece off a square of the board, keeping the fields in step.
pub fn remove_tracked(board: &mut Board, fields: &mut IncrementalEvalFields, sq: Square) -> (r: Option<Piece>)
    requires
        old(fields).matches(*old(board)),
        occupied_count(*old(board), 64) <= 32,
    ensures
        r == old(board).at(sq@),
        final(board).placement() == old(board).placement().update(sq@, None),
        final(fields).matches(*final(board)),
        occupied_count(*final(board), 64) == occupied_count(*old(board), 64) - if r is Some { 1int } else { 0int },
{
    let _ = sq.idx();
    let ghost b0 = *board;
    let piece = board.piece_at(sq);
    proof {
        b0.lemma_placement_len();
        lemma_pst_sum_bound(b0, 64);
        lemma_phase_sum_bounds(b0, 64);
    }
    let _ = board.remove_at(sq);
    proof {
        lemma_board_sum_update(b0, *board, phase_term(), sq@, None, 64);
        lemma_board_sum_update(b0, *board, pst_term(), sq@, None, 64);
        lemma_board_sum_update(b0, *board, count_term(), sq@, None, 64);
        lemma_pst_sum_bound(*board, 64);
        lemma_phase_sum_bounds(*board, 64);
    }
    if let Some(p) = piece {
        proof { lemma_contribution_bound(sq@, p); }
        fields.remove_at(sq, p);
    }
    piece
}

/// Puts a piece on an empty square of the board, keeping the fields in step.
pub fn set_tracked(board: &mut Board, fields: &mut IncrementalEvalFields, sq: Square, piece: Piece)
    requires
        old(fields).matches(*old(board)),
        old(board).at(sq@) is None,
        occupied_count(*old(board), 64) < 32,
    ensures
        final(board).placement() == old(board).placement().update(sq@, Some(piece)),
        final(fields).matches(*final(board)),
        occupied_count(*final(board), 64) == occupied_count(*old(board), 64) + 1,
{
    let _ = sq.idx();
    let ghost b0 = *board;
    board.set_at(sq, piece);
    proof {
        b0.lemma_placement_len();
        lemma_board_sum_update(b0, *board, phase_term(), sq@, Some(piece), 64);
        lemma_board_sum_update(b0, *board, pst_term(), sq@, Some(piece), 64);
        lemma_board_sum_update(b0, *board, count_term(), sq@, Some(piece), 64);
        lemma_pst_sum_bound(*board, 64);
        lemma_phase_sum_bounds(*board, 64);
        lemma_pst_sum_bound(b0, 64);
        lemma_phase_sum_bounds(b0, 64);
    }
    fields.set_at(sq, piece);
}

/// The static evaluation of a board from White's point of view: the
/// piece-square sums blended by the phase of the game.
pub open spec fn static_eval(board: Board) -> int {
    let p = pst_sum(board, 64);
    taper_spec(phase_sum(board, 64), mg_of(p), eg_of(p))
}

/// Whether the static evaluation of a board fits an evaluation.
pub open spec fn eval_in_range(board: Board) -> bool {
    i16::MIN <= static_eval(board) <= i16::MAX
}

/// The evaluation of the game from White's point of view, from the fields
/// kept up to date move by move.
pub fn absolute_eval(game: &Game) -> (r: WhiteEval)
    requires
        game.wf(),
        eval_in_range(game.board),
    ensures r.0 == static_eval(game.board),
{
    proof { lemma_pst_sum_bound(game.board, 64); }
    let eval = game.incremental_eval.piece_square_tables;
    tapered_eval::taper(game.incremental_eval.phase_value, eval)
}

/// The evaluation of the game from the point of view of the player to move.
pub fn eval(game: &Game) -> (r: Eval)
    requires
        game.wf(),
        eval_in_range(game.board),
    ensures r.0 == seen_by(static_eval(game.board), game.player),
{
    let absolute_eval = absolute_eval(game);
    Eval::from_white_eval(absolute_eval, game.player)
}

/// Whether the static evaluation of the game fits an evaluation.
pub fn eval_fits(game: &Game) -> (r: bool)
    requires game.wf(),
    ensures r == eval_in_range(game.board),
{
    proof { lemma_pst_sum_bound(game.board, 64); }
    let v = tapered_eval::taper_wide(game.incremental_eval.phase_value, game.incremental_eval.piece_square_tables);
    -32768 <= v && v <= 32767
}

/// The evaluation of the game from the point of view of the player to move,
/// limited to the range of an evaluation for the positions whose blend
/// leaves it.
pub fn eval_clamped(game: &Game) -> (r: Eval)
    requires game.wf(),
    ensures r.0 == seen_by(clamp_i16(static_eval(game.board)), game.player),
{
    proof { lemma_pst_sum_bound(game.board, 64); }
    let eval = game.incremental_eval.piece_square_tables;
    let white = tapered_eval::taper_clamped(game.incremental_eval.phase_value, eval);
    Eval::from_white_eval(white, game.player)
}

/// The parts of an evaluation, for inspection.
#[derive(Debug)]
pub struct EvalComponents {
    pub eval: WhiteEval,
    pub phase_value: i16,
    pub phased_piece_square: PhasedEval,
    pub piece_square: WhiteEval,
}

/// The evaluation of a game and its parts, the parts computed afresh from
/// the board.
pub fn eval_components(game: &Game) -> (r: EvalComponents)
    requires
        game.wf(),
        eval_in_range(game.board),
    ensures
        r.eval.0 == static_eval(game.board),
        r.phase_value == phase_sum(game.board, 64),
        r.phased_piece_square.0 == pst_sum(game.board, 64),
        r.piece_square.0 == static_eval(game.board),
{
    let eval = absolute_eval(game);
    let phase_value = tapered_eval::phase_value(&game.board);
    proof { piece_square_tables::lemma_sums_fit(game.board); }
    let phased_piece_square = piece_square_tables::eval(&game.board);
    proof { lemma_pst_sum_bound(game.board, 64); }
    let piece_square = tapered_eval::taper(phase_value, phased_piece_square);
    EvalComponents { eval, phase_value, phased_piece_square, piece_square }
}

} // verus!
