//! Iterative deepening: searching one ply deeper each time, while time
//! allows, reporting each finished depth.

use vstd::prelude::*;
use crate::chess::game::{Game, same_state};
use crate::chess::moves::Move;
use crate::engine::eval::player_eval::{Eval, MATE, MATE_THRESHOLD};
use crate::engine::eval::tapered_eval::trunc_div;
use crate::engine::search::aspiration::{aspiration_search, ASPIRATION_MIN_DEPTH};
use crate::engine::search::negamax::{one_ply_value, quiet_one_ply};
use crate::engine::search::quiescence::reply_value;
use crate::engine::transposition_table::lookup_in;
use crate::chess::movegen::gen::legal_move;
use crate::engine::search::principal_variation::{PrincipalVariation, MAX_PV_LENGTH};
use crate::engine::search::state::{PersistentState, SearchState};
use crate::engine::search::time_control::TimeStrategy;
use crate::engine::search::{Reporter, SearchInfo, SearchRestrictions, SearchScore, SearchStats, MAX_SEARCH_DEPTH};

verus! {

/// The nodes searched per second, given the milliseconds taken.
pub fn nodes_per_second(nodes: u64, elapsed_ms: u64) -> (r: u64)
    ensures
        elapsed_ms == 0 ==> r == 0,
        elapsed_ms > 0 && nodes <= u64::MAX / 1000 ==> r == nodes * 1000 / (elapsed_ms as int),
{
    if elapsed_ms == 0 {
        return 0;
    }
    if nodes <= u64::MAX / 1000 {
        nodes * 1000 / elapsed_ms
    } else {
        let per_ms = nodes / elapsed_ms;
        if per_ms <= u64::MAX / 1000 { per_ms * 1000 } else { u64::MAX }
    }
}

/// The score to report for an evaluation: moves to mate, or centipawns.
pub fn search_score(eval: Eval) -> (r: SearchScore)
    ensures
        eval.0 > MATE_THRESHOLD ==> r == SearchScore::Mate(trunc_div(MATE - eval.0 + 1, 2) as i16),
        eval.0 < -MATE_THRESHOLD ==> r == SearchScore::Mate(trunc_div(-MATE - eval.0, 2) as i16),
        !eval.is_mate_spec() ==> r == SearchScore::Centipawns(eval.0),
{
    match eval.is_mate_in_moves() {
        Some(n) => SearchScore::Mate(n),
        None => SearchScore::Centipawns(eval.0),
    }
}

/// Searches deeper and deeper until time runs out or the depth limit is
/// reached; returns the first move of the best line of the last depth
/// that finished. The line is left in `pv`.
pub fn search<R: Reporter>(
    game: &mut Game,
    persistent_state: &mut PersistentState,
    state: &mut SearchState,
    time_control: &mut TimeStrategy,
    search_restrictions: &SearchRestrictions,
    pv: &mut PrincipalVariation,
    reporter: &mut R,
) -> (r: Option<Move>)
    requires
        old(game).wf(),
        old(persistent_state).wf(),
        old(state).wf(),
        old(time_control).wf(),
        old(pv)@.len() <= MAX_PV_LENGTH,
    ensures
        final(game).wf(),
        final(persistent_state).wf(),
        final(state).wf(),
        final(time_control).wf(),
        final(pv)@.len() <= MAX_PV_LENGTH,
        final(state).nodes_visited >= old(state).nodes_visited,
        final(time_control).next_check_at >= old(time_control).next_check_at,
        old(time_control).stop_seen ==> final(time_control).stop_seen,
        final(time_control).time_control == old(time_control).time_control,
        // Unless a depth limit of zero was set or a depth was abandoned
        // (when the clock was looked at, or on a stop request), the move is
        // the first of the line left in `pv`, the line of the last depth
        // that finished.
        search_restrictions.depth != Some(0u8)
            && (final(state).nodes_visited < old(time_control).next_check_at || old(time_control).time_control is Infinite)
            && !final(time_control).stop_seen
            ==> r == (if final(pv)@.len() == 0 { None } else { Some(final(pv)@[0]) }),
        // Limited to one ply, where no move goes deeper and nothing is stored
        // for the position, a move found is a legal move with the best reply
        // (when that lies strictly inside the range of an evaluation); one is
        // found unless the search was abandoned.
        search_restrictions.depth == Some(1u8) && quiet_one_ply(*old(game))
            && lookup_in(old(persistent_state).tt.slots(), old(game).zobrist) is None
            && i16::MIN < one_ply_value(*old(game)) < i16::MAX
            && (exists|m: Move| #[trigger] legal_move(*old(game), true, m) && old(game).board.at(m.src_spec()) is Some)
            ==> {
                &&& r matches Some(m) ==> legal_move(*old(game), true, m)
                    && reply_value(*old(game), m, 1) == one_ply_value(*old(game))
                &&& (final(state).nodes_visited < old(time_control).next_check_at
                    || old(time_control).time_control is Infinite) && !final(time_control).stop_seen
                    ==> r is Some
            },
{
    let ghost one_ply = search_restrictions.depth == Some(1u8) && quiet_one_ply(*game)
        && lookup_in(persistent_state.tt.slots(), game.zobrist) is None
        && i16::MIN < one_ply_value(*game) < i16::MAX
        && (exists|m: Move| #[trigger] legal_move(*game, true, m) && game.board.at(m.src_spec()) is Some);
    let mut best_move: Option<Move> = None;
    let mut overall_eval: Option<Eval> = None;
    let max_search_depth: u8 = match search_restrictions.depth {
        Some(d) => d,
        None => MAX_SEARCH_DEPTH,
    };
    state.max_depth_reached = 0;
    let mut depth: u16 = 1;
    while depth <= max_search_depth as u16
        invariant_except_break
            depth > 1 ==> best_move == (if pv@.len() == 0 { None::<Move> } else { Some(pv@[0]) }),
            depth == 1 ==> *game == *old(game) && *persistent_state == *old(persistent_state),
        invariant
            1 <= depth <= 256,
            game.wf(),
            persistent_state.wf(),
            state.wf(),
            time_control.wf(),
            pv@.len() <= MAX_PV_LENGTH,
            depth > 1 ==> overall_eval is Some,
            state.nodes_visited >= old(state).nodes_visited,
            time_control.next_check_at >= old(time_control).next_check_at,
            old(time_control).stop_seen ==> time_control.stop_seen,
            time_control.time_control == old(time_control).time_control,
            max_search_depth == 0 <==> search_restrictions.depth == Some(0u8),
            search_restrictions.depth == Some(1u8) ==> max_search_depth == 1,
            depth == 1 ==> best_move is None,
            one_ply == (search_restrictions.depth == Some(1u8) && quiet_one_ply(*old(game))
                && lookup_in(old(persistent_state).tt.slots(), old(game).zobrist) is None
                && i16::MIN < one_ply_value(*old(game)) < i16::MAX
                && (exists|m: Move| #[trigger] legal_move(*old(game), true, m) && old(game).board.at(m.src_spec()) is Some)),
            one_ply ==> (best_move matches Some(m) ==> legal_move(*old(game), true, m)
                && reply_value(*old(game), m, 1) == one_ply_value(*old(game))),
            one_ply && depth > 1 ==> best_move is Some,
        ensures
            game.wf(),
            persistent_state.wf(),
            state.wf(),
            time_control.wf(),
            pv@.len() <= MAX_PV_LENGTH,
            state.nodes_visited >= old(state).nodes_visited,
            time_control.next_check_at >= old(time_control).next_check_at,
            old(time_control).stop_seen ==> time_control.stop_seen,
            time_control.time_control == old(time_control).time_control,
            max_search_depth == 0 <==> search_restrictions.depth == Some(0u8),
            max_search_depth == 0 || (state.nodes_visited >= old(time_control).next_check_at
                && !(old(time_control).time_control is Infinite)) || time_control.stop_seen
                || best_move == (if pv@.len() == 0 { None::<Move> } else { Some(pv@[0]) }),
            one_ply ==> (best_move matches Some(m) ==> legal_move(*old(game), true, m)
                && reply_value(*old(game), m, 1) == one_ply_value(*old(game))),
            one_ply ==> best_move is Some || (state.nodes_visited >= old(time_control).next_check_at
                && !(old(time_control).time_control is Infinite)) || time_control.stop_seen,
        decreases 257 - depth,
    {
        let d = depth as u8;
        if !time_control.should_start_new_search(d) {
            break;
        }
        let result = aspiration_search(game, d, overall_eval, pv, persistent_state, state, time_control);
        let eval = match result {
            Ok(v) => v,
            Err(_) => break,
        };
        let score = search_score(eval);
        best_move = pv.first();
        overall_eval = Some(eval);
        if let Some(m) = best_move {
            time_control.update(m, d);
        }
        let elapsed = time_control.elapsed();
        let info = SearchInfo {
            depth: d,
            seldepth: state.max_depth_reached,
            score,
            pv: pv.duplicate(),
            hashfull: persistent_state.tt.occupancy(),
            stats: SearchStats {
                time: elapsed,
                nodes: state.nodes_visited,
                nodes_per_second: nodes_per_second(state.nodes_visited, elapsed),
                tbhits: state.tbhits,
            },
        };
        reporter.report_search_progress(game, info);
        depth = depth + 1;
    }
    best_move
}

} // verus!
