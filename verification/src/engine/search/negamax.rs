//! The main search: negamax with alpha-beta pruning, a transposition
//! table, principal variation search, null move pruning, reverse futility
//! pruning and check extensions.

use vstd::prelude::*;
use crate::chess::game::{Game, same_state, lemma_make_undo, drawn_by_rule, successor, lemma_successor, lemma_successor_same, move_made};
use crate::chess::moves::{Move, promotion_flags, lemma_move_sets_finite};
use crate::chess::piece::PieceKind;
use crate::engine::eval::{eval_clamped, static_eval};
use crate::engine::eval::tapered_eval::clamp_i16;
use crate::engine::eval::player_eval::{Eval, saturate, seen_by, negated, MATE, from_root_spec};
use crate::engine::search::move_provider::{MoveProvider, yields, lemma_same_position_legal_move, stage_rank};
use crate::engine::search::principal_variation::{PrincipalVariation, MAX_PV_LENGTH};
use crate::engine::search::quiescence::{
    quiescence, quiet_value, stand_pat, reply_value, best_reply, lemma_child_bounds, lemma_step,
    lemma_fold_best, lemma_quiet_value_range, lemma_quiet_value_same, lemma_quiet_value_base,
};
use crate::engine::search::state::{PersistentState, SearchState};
use crate::engine::search::time_control::TimeStrategy;
use crate::engine::search::transposition::{NodeBound, SearchTranspositionTableData, TTMove};
use crate::engine::search::MAX_SEARCH_DEPTH;
use crate::engine::transposition_table::lookup_in;
use crate::chess::perft::{no_moves, legal_moves};
use crate::chess::movegen::gen::{checkers, legal_move, lemma_captures_are_moves};

verus! {

pub const NULL_MOVE_PRUNING_DEPTH_LIMIT: u8 = 3;
pub const NULL_MOVE_PRUNING_DEPTH_REDUCTION: u8 = 2;
pub const REVERSE_FUTILITY_PRUNE_DEPTH: u8 = 4;
pub const REVERSE_FUTILITY_PRUNE_MARGIN_PER_PLY: i32 = 150;

/// `-v + 1`, limited to the range of an evaluation.
fn negated_plus_one(v: Eval) -> (r: Eval)
    ensures r.0 == saturate(-(v.0 as int) + 1),
{
    let w = -(v.0 as i32) + 1;
    Eval(if w > 32767 { i16::MAX } else { w as i16 })
}

/// `-v - 1`, limited to the range of an evaluation.
fn negated_minus_one(v: Eval) -> (r: Eval)
    ensures r.0 == saturate(-(v.0 as int) - 1),
{
    let w = -(v.0 as i32) - 1;
    Eval(if w < -32768 { i16::MIN } else { w as i16 })
}

/// The move stored in a table entry, when it names two squares.
fn stored_move(data: SearchTranspositionTableData) -> (r: Option<Move>)
    ensures
        (data.best_move matches Some(t) && t.start_square_idx < 64 && t.end_square_idx < 64) ==> (r matches Some(m)
            && m.src_spec() == data.best_move->0.start_square_idx
            && m.dst_spec() == data.best_move->0.end_square_idx
            && m.flags_spec() == (match data.best_move->0.promotion { Some(p) => promotion_flags(p), None => 0 })),
        !(data.best_move matches Some(t) && t.start_square_idx < 64 && t.end_square_idx < 64) ==> r is None,
{
    match data.best_move {
        Some(m) => if m.start_square_idx < 64 && m.end_square_idx < 64 { Some(m.to_move()) } else { None },
        None => None,
    }
}

/// The value of searching the position one ply deep: the best of the
/// legal moves, each scored by the negated capture-search value of the
/// position it leads to, or a draw when there is none.
#[verifier::opaque]
pub open spec fn one_ply_value(g: Game) -> int {
    let best = legal_moves(g).fold(i16::MIN as int, best_reply(g, 1));
    if best == i16::MIN { 0 } else { best }
}

/// Whether a search one ply deep from the position goes no deeper: the
/// player to move has one king and is not in check, and no legal move gives
/// check.
#[verifier::opaque]
pub open spec fn quiet_one_ply(g: Game) -> bool {
    &&& g.board.set_of(g.player, PieceKind::King).len() == 1
    &&& checkers(g).is_empty()
    &&& forall|m: Move| #[trigger] legal_move(g, true, m) ==> (
        successor(g, m).board.set_of(successor(g, m).player, PieceKind::King).len() == 1
            ==> checkers(successor(g, m)).is_empty())
}

/// A position one ply deep from which no move goes deeper has one king to
/// move and is not in check, and so is each position a legal move leads to
/// (when it has one king to move).
pub proof fn lemma_quiet_one_ply(g: Game, m: Move)
    requires quiet_one_ply(g),
    ensures
        g.board.set_of(g.player, PieceKind::King).len() == 1,
        checkers(g).is_empty(),
        legal_move(g, true, m) ==> (
            successor(g, m).board.set_of(successor(g, m).player, PieceKind::King).len() == 1
                ==> checkers(successor(g, m)).is_empty()),
{
    reveal(quiet_one_ply);
}

/// Games in the same state are as quiet one ply deep, have the same
/// replies and the same one-ply value.
pub proof fn lemma_one_ply_same(a: Game, b: Game)
    requires same_state(a, b),
    ensures
        quiet_one_ply(a) == quiet_one_ply(b),
        one_ply_value(a) == one_ply_value(b),
        forall|m: Move| #[trigger] reply_value(a, m, 1) == reply_value(b, m, 1),
        forall|m: Move| #[trigger] legal_move(a, true, m) == legal_move(b, true, m),
{
    reveal(quiet_one_ply);
    reveal(one_ply_value);
    assert forall|m: Move| successor(a, m) == successor(b, m) && legal_move(a, true, m) == legal_move(b, true, m) by {
        lemma_successor_same(a, b, m);
        lemma_same_position_legal_move(a, b, true, m);
    }
    assert(legal_moves(a) =~= legal_moves(b));
    assert(best_reply(a, 1) =~= best_reply(b, 1));
    assert(checkers(a) == checkers(b));
}

/// At the root, one ply deep with no move going deeper, a legal move
/// played in the same state does not give check, and has the same reply.
proof fn lemma_root_reply(start: Game, before: Game, mv: Move)
    requires
        quiet_one_ply(start),
        legal_move(start, true, mv),
        same_state(before, start),
    ensures
        reply_value(before, mv, 1) == reply_value(start, mv, 1),
        successor(before, mv).board.set_of(successor(before, mv).player, PieceKind::King).len() == 1
            ==> checkers(successor(before, mv)).is_empty(),
{
    lemma_successor_same(before, start, mv);
    lemma_quiet_one_ply(start, mv);
}

/// What a search of a move tells of its reply `t`, given its score `ms`
/// searched with the window from `a` to `b`: a bound below at or above
/// `b`, a bound above below it, and the reply itself strictly inside.
pub open spec fn scored(ms: int, t: int, a: int, b: int) -> bool {
    &&& ms >= b ==> t >= ms
    &&& ms < b ==> t <= ms
    &&& a < ms < b ==> t == ms
}

/// What a search of a move with the null window just above `a` tells of
/// its reply: a score at or below `a` is a bound above, one above `a` a
/// bound below.
proof fn lemma_null_bounds(vn: int, qc: int, a: int, b: int)
    requires
        i16::MIN < a < b <= i16::MAX,
        i16::MIN <= vn <= i16::MAX,
        i16::MIN <= qc <= i16::MAX,
        vn <= saturate(-a - 1) ==> qc <= vn,
        vn >= negated(a) ==> qc >= vn,
    ensures
        !(a < negated(vn) < b) ==> scored(negated(vn), negated(qc), a, b),
{
}

/// How far the moves searched at the root have got: each was legal, none
/// has a reply above the best score, the best score (above alpha) is one of
/// their replies, and it is the least score until a move was searched.
#[verifier::opaque]
spec fn root_progress(handed: Set<Move>, start: Game, best: int, searched: int, alpha0: int) -> bool {
    &&& (searched == 0 ==> best == i16::MIN)
    &&& (searched > 0 ==> best > i16::MIN && exists|m: Move| #[trigger] handed.contains(m) && reply_value(start, m, 1) > i16::MIN)
    &&& forall|m: Move| #[trigger] handed.contains(m) ==> legal_moves(start).contains(m)
    &&& forall|m: Move| #[trigger] handed.contains(m) ==> reply_value(start, m, 1) <= best
    &&& best > alpha0 ==> exists|m: Move| #[trigger] handed.contains(m) && reply_value(start, m, 1) == best
}

proof fn lemma_root_start(start: Game, alpha0: int)
    requires alpha0 >= i16::MIN,
    ensures root_progress(Set::empty(), start, i16::MIN as int, 0, alpha0),
{
    reveal(root_progress);
}

proof fn lemma_root_skip(handed: Set<Move>, mv: Move, start: Game, best: int, searched: int, alpha0: int)
    requires
        root_progress(handed, start, best, searched, alpha0),
        best >= i16::MIN,
        legal_moves(start).contains(mv),
        start.board.at(mv.src_spec()) is None,
    ensures root_progress(handed.insert(mv), start, best, searched, alpha0),
{
    reveal(root_progress);
    assert(reply_value(start, mv, 1) == i16::MIN);
    let h = handed.insert(mv);
    assert forall|m: Move| #[trigger] h.contains(m) implies legal_moves(start).contains(m)
        && reply_value(start, m, 1) <= best by {
        if m != mv { assert(handed.contains(m)); }
    }
    if searched > 0 {
        let w = choose|m: Move| #[trigger] handed.contains(m) && reply_value(start, m, 1) > i16::MIN;
        assert(handed.insert(mv).contains(w));
    }
    if best > alpha0 {
        let w = choose|m: Move| #[trigger] handed.contains(m) && reply_value(start, m, 1) == best;
        assert(handed.insert(mv).contains(w));
    }
}

proof fn lemma_root_move(
    handed: Set<Move>, mv: Move, start: Game, best: int, searched: int, alpha0: int,
    alpha_cur: int, ms: int, beta: int, best_after: int, searched_after: int,
)
    requires
        root_progress(handed, start, best, searched, alpha0),
        legal_moves(start).contains(mv),
        scored(ms, reply_value(start, mv, 1), alpha_cur, beta),
        alpha_cur == (if alpha0 > best { alpha0 } else { best }),
        ms < beta,
        ms > i16::MIN,
        reply_value(start, mv, 1) > i16::MIN,
        best_after == (if ms > best || searched == 0 { ms } else { best }),
        searched_after > 0,
    ensures root_progress(handed.insert(mv), start, best_after, searched_after, alpha0),
{
    reveal(root_progress);
    let h = handed.insert(mv);
    assert(h.contains(mv));
    assert forall|m: Move| #[trigger] h.contains(m) implies legal_moves(start).contains(m)
        && reply_value(start, m, 1) <= best_after by {
        if m != mv { assert(handed.contains(m)); }
    }
    if searched_after > 0 {
        assert(reply_value(start, mv, 1) > i16::MIN);
    }
    if best_after > alpha0 {
        if ms > best || searched == 0 {
            assert(reply_value(start, mv, 1) == best_after);
        } else {
            let w = choose|m: Move| #[trigger] handed.contains(m) && reply_value(start, m, 1) == best;
            assert(h.contains(w));
        }
    }
}

proof fn lemma_root_done(handed: Set<Move>, start: Game, best: int, searched: int, alpha0: int)
    requires
        root_progress(handed, start, best, searched, alpha0),
        forall|m: Move| #[trigger] legal_moves(start).contains(m) ==> handed.contains(m),
    ensures
        searched == 0 ==> best == i16::MIN,
        searched > 0 ==> exists|m: Move| #[trigger] legal_moves(start).contains(m) && reply_value(start, m, 1) > i16::MIN,
        forall|m: Move| #[trigger] legal_moves(start).contains(m) ==> reply_value(start, m, 1) <= best,
        best > alpha0 ==> exists|m: Move| #[trigger] legal_moves(start).contains(m) && reply_value(start, m, 1) == best,
{
    reveal(root_progress);
    if searched > 0 {
        let w = choose|m: Move| #[trigger] handed.contains(m) && reply_value(start, m, 1) > i16::MIN;
        assert(legal_moves(start).contains(w));
    }
    if best > alpha0 {
        let w = choose|m: Move| #[trigger] handed.contains(m) && reply_value(start, m, 1) == best;
        assert(legal_moves(start).contains(w));
    }
}

/// A position with no legal move yields none, in the same state again.
proof fn lemma_no_move_handed_out(start: Game, game: Game, m: Move)
    requires
        no_moves(start),
        same_state(game, start),
    ensures !yields(game, m),
{
    if yields(game, m) {
        if legal_move(game, false, m) {
            lemma_captures_are_moves(game, m);
        }
        lemma_same_position_legal_move(game, start, true, m);
        assert(legal_move(start, true, m));
    }
}

/// Plays `mv`, searches the position it leads to from the other side and
/// takes the move back: the first move with the full window; a later one
/// with the null window just above alpha first, and again with the full
/// window when its score lands inside.
#[verifier::rlimit(40)]
fn search_move(
    game: &mut Game,
    mv: Move,
    first: bool,
    alpha: Eval,
    beta: Eval,
    depth: u8,
    plies: u8,
    persistent_state: &mut PersistentState,
    node_pv: &mut PrincipalVariation,
    time_control: &mut TimeStrategy,
    state: &mut SearchState,
) -> (r: Result<Eval, ()>)
    requires
        old(game).wf(),
        old(game).board.at(mv.src_spec()) is Some,
        old(persistent_state).wf(),
        old(state).wf(),
        old(time_control).wf(),
        depth >= 1,
        plies < MAX_SEARCH_DEPTH,
        old(node_pv)@.len() <= MAX_PV_LENGTH - (plies + 1),
    ensures
        final(game).wf(),
        final(persistent_state).wf(),
        final(state).wf(),
        final(time_control).wf(),
        final(node_pv)@.len() <= MAX_PV_LENGTH - (plies + 1),
        r is Ok ==> same_state(*final(game), *old(game)),
        final(state).nodes_visited >= old(state).nodes_visited,
        final(time_control).next_check_at >= old(time_control).next_check_at,
        old(time_control).stop_seen ==> final(time_control).stop_seen,
        final(time_control).time_control == old(time_control).time_control,
        r is Err && !final(time_control).stop_seen ==> !(old(time_control).time_control is Infinite),
        r is Err ==> final(state).nodes_visited >= old(time_control).next_check_at || final(time_control).stop_seen,
        r matches Ok(ms) ==> ms.0 > i16::MIN,
        // One ply from the end, where the move does not give check, the
        // score tells of the reply of the move as alpha-beta gives it.
        depth == 1 && alpha.0 < beta.0 && beta.0 > i16::MIN + 1 && (first || alpha.0 > i16::MIN)
            && (successor(*old(game), mv).board.set_of(successor(*old(game), mv).player, PieceKind::King).len() == 1
                ==> checkers(successor(*old(game), mv)).is_empty())
            ==> (r matches Ok(ms) ==> {
                &&& reply_value(*old(game), mv, (plies + 1) as nat) > i16::MIN
                &&& scored(ms.0 as int, reply_value(*old(game), mv, (plies + 1) as nat), alpha.0 as int, beta.0 as int)
            }),
    decreases MAX_SEARCH_DEPTH - plies, 0nat,
{
    let ghost before = *game;
    game.make_move(mv);
    let ghost after = *game;
    proof {
        lemma_successor(before, mv, after);
        lemma_quiet_value_same(after, successor(before, mv), (plies + 1) as nat);
        assert(checkers(after) == checkers(successor(before, mv)));
    }
    let ghost quiet = depth == 1 && alpha.0 < beta.0 && beta.0 > i16::MIN + 1
        && (after.board.set_of(after.player, PieceKind::King).len() == 1 ==> checkers(after).is_empty());
    proof {
        lemma_quiet_value_range(after, (plies + 1) as nat);
    }
    let result = if first {
        let result = negamax(game, beta.neg(), alpha.neg(), depth - 1, plies + 1, persistent_state,
            node_pv, time_control, state);
        match result {
            Ok(v) => {
                proof {
                    if quiet {
                        lemma_child_bounds(v.0 as int, quiet_value(after, (plies + 1) as nat), alpha.0 as int, beta.0 as int);
                    }
                }
                Ok(v.neg())
            },
            Err(e) => Err(e),
        }
    } else {
        // We already found a good move (i.e. we raised alpha).
        // Now, we just need to prove that the other moves are worse.
        // We search them with a reduced window to prove that they are at least worse.
        let result = negamax(game, negated_minus_one(alpha), alpha.neg(), depth - 1, plies + 1,
            persistent_state, node_pv, time_control, state);
        match result {
            Ok(v) => {
                proof {
                    if quiet && alpha.0 > i16::MIN {
                        lemma_null_bounds(v.0 as int, quiet_value(after, (plies + 1) as nat), alpha.0 as int, beta.0 as int);
                    }
                }
                let pvs_score = v.neg();
                // Turns out the move we just searched could be better than our current PV, so we re-search
                // with the normal alpha/beta bounds.
                if pvs_score.0 > alpha.0 && pvs_score.0 < beta.0 {
                    node_pv.clear();
                    let ghost again = *game;
                    proof {
                        lemma_quiet_value_same(again, after, (plies + 1) as nat);
                        assert(checkers(again) == checkers(after));
                    }
                    let result = negamax(game, beta.neg(), alpha.neg(), depth - 1, plies + 1, persistent_state,
                        node_pv, time_control, state);
                    match result {
                        Ok(v) => {
                            proof {
                                if quiet {
                                    lemma_child_bounds(v.0 as int, quiet_value(after, (plies + 1) as nat), alpha.0 as int, beta.0 as int);
                                }
                            }
                            Ok(v.neg())
                        },
                        Err(e) => Err(e),
                    }
                } else {
                    Ok(pvs_score)
                }
            },
            Err(e) => Err(e),
        }
    };
    match result {
        Ok(v) => {
            game.undo_move();
            proof {
                lemma_make_undo(before, after, *game, Some(mv));
            }
            Ok(v)
        },
        Err(e) => Err(e),
    }
}

/// The score of the position for the player to move, searched `depth`
/// plies deep (`plies` below the root) within the window from `alpha` to
/// `beta`; `pv` receives the best line found. `Err` when the time ran out;
/// the game is then left where the search stopped. On `Ok` the game is as
/// it was.
#[verifier::rlimit(100)]
#[verifier::spinoff_prover]
pub fn negamax(
    game: &mut Game,
    alpha: Eval,
    beta: Eval,
    depth: u8,
    plies: u8,
    persistent_state: &mut PersistentState,
    pv: &mut PrincipalVariation,
    time_control: &mut TimeStrategy,
    state: &mut SearchState,
) -> (r: Result<Eval, ()>)
    requires
        old(game).wf(),
        old(persistent_state).wf(),
        old(state).wf(),
        old(time_control).wf(),
        old(pv)@.len() <= MAX_PV_LENGTH - plies,
    ensures
        final(game).wf(),
        final(persistent_state).wf(),
        final(state).wf(),
        final(time_control).wf(),
        final(pv)@.len() <= MAX_PV_LENGTH - plies,
        r is Ok ==> same_state(*final(game), *old(game)),
        // The node count only grows, the clock is looked at no earlier than
        // planned, and the search gives up only once the node count reached
        // the next look at the clock.
        final(state).nodes_visited >= old(state).nodes_visited,
        final(time_control).next_check_at >= old(time_control).next_check_at,
        old(time_control).stop_seen ==> final(time_control).stop_seen,
        final(time_control).time_control == old(time_control).time_control,
        r is Err && !final(time_control).stop_seen ==> !(old(time_control).time_control is Infinite),
        r is Err ==> final(state).nodes_visited >= old(time_control).next_check_at || final(time_control).stop_seen,
        // Below the root, a search that gives up before counting its node
        // (that is, on the look at the clock on entry) leaves the game and
        // the line as they were.
        plies > 0 && r is Err && old(state).nodes_visited < u64::MAX
            && final(state).nodes_visited == old(state).nodes_visited
            ==> same_state(*final(game), *old(game)) && final(pv)@ == old(pv)@,
        // Below the root, in a position searched on (one king to move, not
        // drawn by rule, some depth left once a check is extended) with
        // nothing stored for it and where no pruning applies (in check, a
        // window wider than the null window, or a static score below beta):
        // a player with no legal move is
        // mated when in check, and stalemated (a draw) otherwise.
        0 < plies < MAX_SEARCH_DEPTH && old(game).board.set_of(old(game).player, PieceKind::King).len() == 1
            && !drawn_by_rule(*old(game)) && no_moves(*old(game))
            && lookup_in(old(persistent_state).tt.slots(), old(game).zobrist) is None
            && (depth >= 1 || !checkers(*old(game)).is_empty())
            && (!checkers(*old(game)).is_empty() || alpha.0 as int != beta.0 as int - 1 || stand_pat(*old(game)) < beta.0)
            ==> (r matches Ok(v) ==> v.0 == (if checkers(*old(game)).is_empty() { 0 } else { -MATE + plies })),
        // Below the root, in a position searched on whose stored entry is at
        // least as deep as the search: the stored score (counted from the
        // root) is the result when the entry is exact, an upper bound at or
        // below alpha, or a lower bound at or above beta.
        0 < plies < MAX_SEARCH_DEPTH && old(game).board.set_of(old(game).player, PieceKind::King).len() == 1
            && !drawn_by_rule(*old(game))
            && (depth >= 1 || !checkers(*old(game)).is_empty())
            && lookup_in(old(persistent_state).tt.slots(), old(game).zobrist) is Some
            ==> ({
                let e = lookup_in(old(persistent_state).tt.slots(), old(game).zobrist)->0;
                e.depth >= (if !checkers(*old(game)).is_empty() && depth < MAX_SEARCH_DEPTH { depth + 1 } else { depth as int })
                    && (e.bound == NodeBound::Exact || (e.bound == NodeBound::Upper && e.eval.0 <= alpha.0)
                        || (e.bound == NodeBound::Lower && e.eval.0 >= beta.0))
                    ==> (r matches Ok(v) ==> v.0 == from_root_spec(e.eval.0 as int, plies as int))
            }),
        // Below the root, a search that goes on looked at the clock on entry
        // and was not told to stop: the node count was below the next look,
        // or the clock as read then (with no stop request) gave no stop.
        plies > 0 && r is Ok && old(state).nodes_visited >= old(time_control).next_check_at
            ==> exists|elapsed: u64| #[trigger] old(time_control).stop_decision_spec(false, elapsed) == false,
        // At the root, a position with no single king to move is evaluated
        // without looking at the clock.
        plies == 0 && old(game).board.set_of(old(game).player, PieceKind::King).len() != 1 ==> r is Ok,
        // At the root, with one king to move, a position with no legal move
        // (and no move stored for it in the table) is lost when in check
        // and drawn otherwise; the line is left as it was.
        plies == 0 && depth >= 1
            && old(game).board.set_of(old(game).player, PieceKind::King).len() == 1
            && lookup_in(old(persistent_state).tt.slots(), old(game).zobrist) is None
            && no_moves(*old(game))
            ==> (r matches Ok(e) && e.0 == (if checkers(*old(game)).is_empty() { 0 } else { -MATE }))
                && final(pv)@ == old(pv)@,
        // With no single king to move, or at the deepest ply: the static
        // evaluation, unless the time ran out first.
        old(game).board.set_of(old(game).player, PieceKind::King).len() != 1 || plies == MAX_SEARCH_DEPTH
            ==> (r matches Ok(e) ==> e.0 == seen_by(clamp_i16(static_eval(old(game).board)), old(game).player)),
        // Below the root, a position drawn by rule scores a draw, unless the
        // time ran out first.
        old(game).board.set_of(old(game).player, PieceKind::King).len() == 1 && 0 < plies < MAX_SEARCH_DEPTH
            && drawn_by_rule(*old(game)) ==> (r is Ok ==> r == Ok::<Eval, ()>(Eval(0))),
        // With no depth left and not in check, the score is the value of
        // the capture search, as alpha-beta gives it.
        depth == 0 && (old(game).board.set_of(old(game).player, PieceKind::King).len() == 1 ==> checkers(*old(game)).is_empty())
            && alpha.0 < beta.0 && (alpha.0 > i16::MIN || stand_pat(*old(game)) > i16::MIN)
            ==> (r matches Ok(v) ==> {
                &&& v.0 <= alpha.0 ==> quiet_value(*old(game), plies as nat) <= v.0
                &&& v.0 >= beta.0 ==> quiet_value(*old(game), plies as nat) >= v.0
                &&& alpha.0 < v.0 < beta.0 ==> quiet_value(*old(game), plies as nat) == v.0
            }),
        // At the root, at any depth, with nothing stored for the position and
        // a legal move to play: a score strictly inside the window comes with
        // a line that starts with a legal move.
        plies == 0 && depth >= 1 && old(game).board.set_of(old(game).player, PieceKind::King).len() == 1
            && lookup_in(old(persistent_state).tt.slots(), old(game).zobrist) is None
            && (exists|m: Move| #[trigger] legal_move(*old(game), true, m) && old(game).board.at(m.src_spec()) is Some)
            ==> (r matches Ok(v) && alpha.0 < v.0 < beta.0 ==> final(pv)@.len() >= 1 && legal_move(*old(game), true, final(pv)@[0])),
        // At the root, one ply deep where no move goes deeper, with nothing
        // stored for the position: the score is the best reply, as
        // alpha-beta gives it.
        plies == 0 && depth == 1 && quiet_one_ply(*old(game))
            && lookup_in(old(persistent_state).tt.slots(), old(game).zobrist) is None
            && alpha.0 < beta.0 && beta.0 > i16::MIN + 1
            ==> (r matches Ok(v) ==> {
                &&& v.0 <= alpha.0 ==> one_ply_value(*old(game)) <= v.0
                &&& v.0 >= beta.0 ==> one_ply_value(*old(game)) >= v.0
                &&& alpha.0 < v.0 < beta.0 ==> one_ply_value(*old(game)) == v.0
                // With a legal move to play, the line starts with a legal move
                // whose reply is the score.
                &&& alpha.0 < v.0 < beta.0
                    && (exists|m: Move| #[trigger] legal_move(*old(game), true, m) && old(game).board.at(m.src_spec()) is Some)
                    ==> final(pv)@.len() >= 1
                    && legal_move(*old(game), true, final(pv)@[0])
                    && reply_value(*old(game), final(pv)@[0], 1) == v.0
            }),
    decreases MAX_SEARCH_DEPTH - plies, 1nat,
{
    let ghost alpha0 = alpha.0 as int;
    let ghost c2 = plies == 0 && lookup_in(persistent_state.tt.slots(), game.zobrist) is None;
    let ghost c1 = plies == 0 && depth == 1 && quiet_one_ply(*game)
        && lookup_in(persistent_state.tt.slots(), game.zobrist) is None && alpha.0 < beta.0 && beta.0 > i16::MIN + 1;
    proof {
        lemma_quiet_value_base(*game, plies as nat);
        if c1 {
            lemma_quiet_one_ply(*game, Move(0));
        }
    }
    let mut alpha = alpha;
    let is_root = plies == 0;
    let is_pv = alpha.0 as i32 != beta.0 as i32 - 1;

    // Check periodically to see if we're out of time. If we are, we shouldn't continue the search
    // so we return Err to signal to the caller that the search did not complete.
    if !is_root && (time_control.should_stop(state.nodes_visited) || time_control.stop_requested()) {
        return Err(());
    }

    if plies > state.max_depth_reached {
        state.max_depth_reached = plies;
    }

    // Only a position with one king to move in can be searched on.
    if game.board.king(game.player).count() != 1 || plies == MAX_SEARCH_DEPTH {
        return Ok(eval_clamped(game));
    }

    if !is_root {
        let drawn = game.is_repeated_position() || game.is_stalemate_by_fifty_move_rule()
            || game.is_stalemate_by_insufficient_material();
        proof { reveal(drawn_by_rule); }
        if drawn {
            return Ok(Eval::draw());
        }
    }

    // Check extension: If we're about to finish searching, but we are in check, we
    // should keep going.
    let in_check = game.is_king_in_check();
    let mut depth = depth;
    if in_check && depth < MAX_SEARCH_DEPTH {
        depth = depth + 1;
    }

    if depth == 0 {
        return quiescence(game, alpha, beta, plies, time_control, persistent_state, state);
    }

    if !is_root {
        state.nodes_visited = state.nodes_visited.saturating_add(1);
    }

    let mut previous_best_move: Option<Move> = None;
    if let Some(tt_entry) = persistent_state.tt.get(&game.zobrist) {
        if !is_root && tt_entry.depth >= depth {
            let tt_score = tt_entry.eval.with_mate_distance_from_root(plies);
            match tt_entry.bound {
                NodeBound::Exact => return Ok(tt_score),
                NodeBound::Upper => if tt_entry.eval.0 <= alpha.0 { return Ok(tt_score); },
                NodeBound::Lower => if tt_entry.eval.0 >= beta.0 { return Ok(tt_score); },
            }
        }
        previous_best_move = stored_move(tt_entry);
    }

    if !is_root && !is_pv && !in_check {
        let eval = eval_clamped(game);

        // Reverse futility pruning
        if depth <= REVERSE_FUTILITY_PRUNE_DEPTH
            && eval.0 as i32 - REVERSE_FUTILITY_PRUNE_MARGIN_PER_PLY * depth as i32 > beta.0 as i32
        {
            return Ok(beta);
        }

        // Null move pruning; don't let a player play a null move in response to a null move
        let n = game.history.len();
        let after_move = n == 0 || game.history[n - 1].mv.is_some();
        if depth >= NULL_MOVE_PRUNING_DEPTH_LIMIT && eval.0 >= beta.0 && after_move {
            let ghost before = *game;
            game.make_null_move();
            let ghost after = *game;
            let mut null_pv = PrincipalVariation::new();
            let result = negamax(
                game,
                beta.neg(),
                negated_plus_one(beta),
                depth - 1 - NULL_MOVE_PRUNING_DEPTH_REDUCTION,
                plies + 1,
                persistent_state,
                &mut null_pv,
                time_control,
                state,
            );
            let null_score = match result {
                Ok(v) => v.neg(),
                Err(e) => return Err(e),
            };
            game.undo_null_move();
            proof { lemma_make_undo(before, after, *game, None); }
            if null_score.0 >= beta.0 {
                return Ok(null_score);
            }
        }
    }

    let mut tt_node_bound = NodeBound::Upper;
    let mut best_move: Option<Move> = None;
    let mut best_eval = Eval::min();

    let ghost start = *game;
    proof { assert(same_state(start, *old(game))); }
    let ghost stuck = previous_best_move is None && no_moves(*old(game));
    let mut moves = MoveProvider::new(previous_best_move);
    let mut number_of_legal_moves: u32 = 0;
    let mut node_pv = PrincipalVariation::new();
    let ghost legal = legal_moves(start);
    proof {
        if c1 {
            lemma_move_sets_finite(legal);
            assert(start == *old(game));
            lemma_quiet_one_ply(start, Move(0));
            lemma_root_start(start, alpha0);
        }
    }

    loop
        invariant_except_break
            tt_node_bound != NodeBound::Lower,
            c2 ==> {
                &&& plies == 0
                &&& moves.first_move() is None
                &&& !moves.captures_only()
                &&& alpha.0 == (if alpha0 > best_eval.0 { alpha0 } else { best_eval.0 as int })
                &&& (number_of_legal_moves == 0 ==> best_eval.0 == i16::MIN
                    && forall|m: Move| #[trigger] moves.handed().contains(m) ==> start.board.at(m.src_spec()) is None)
                &&& forall|m: Move| #[trigger] moves.handed().contains(m) ==> legal.contains(m)
                &&& best_eval.0 > alpha0 ==> pv@.len() >= 1 && legal.contains(pv@[0])
            },
            c1 ==> {
                &&& depth == 1
                &&& plies == 0
                &&& alpha0 < beta.0
                &&& beta.0 > i16::MIN + 1
                &&& legal.finite()
                &&& quiet_one_ply(start)
                &&& moves.first_move() is None
                &&& !moves.captures_only()
                &&& best_eval.0 < beta.0
                &&& alpha.0 == (if alpha0 > best_eval.0 { alpha0 } else { best_eval.0 as int })
                &&& (number_of_legal_moves > 0 ==> best_eval.0 > i16::MIN)
                &&& (number_of_legal_moves == 0 ==> best_eval.0 == i16::MIN)
                &&& best_eval.0 > alpha0 ==> pv@.len() >= 1 && legal.contains(pv@[0])
                    && reply_value(start, pv@[0], 1) == best_eval.0
                &&& root_progress(moves.handed(), start, best_eval.0 as int, number_of_legal_moves as int, alpha0)
            },
        invariant
            game.wf(),
            same_state(*game, start),
            same_state(start, *old(game)),
            depth >= 1,
            start.board.set_of(start.player, PieceKind::King).len() == 1,
            persistent_state.wf(),
            state.wf(),
            time_control.wf(),
            moves.wf_for(*game),
            plies < MAX_SEARCH_DEPTH,
            pv@.len() <= MAX_PV_LENGTH - plies,
            number_of_legal_moves > 0 ==> best_move is Some,
            state.nodes_visited >= old(state).nodes_visited,
            time_control.next_check_at >= old(time_control).next_check_at,
            old(time_control).stop_seen ==> time_control.stop_seen,
            time_control.time_control == old(time_control).time_control,
            stuck ==> number_of_legal_moves == 0 && pv@ == old(pv)@ && moves.first_move() is None,
            stuck == (previous_best_move is None && no_moves(*old(game))),
            lookup_in(old(persistent_state).tt.slots(), old(game).zobrist) is None ==> previous_best_move is None,
            is_root == (plies == 0),
            !is_root && old(state).nodes_visited < u64::MAX ==> state.nodes_visited > old(state).nodes_visited,
            legal == legal_moves(start),
            (number_of_legal_moves == 0) == (best_move is None),
        ensures
            game.wf(),
            same_state(*game, start),
            persistent_state.wf(),
            state.wf(),
            time_control.wf(),
            pv@.len() <= MAX_PV_LENGTH - plies,
            number_of_legal_moves > 0 ==> best_move is Some,
            state.nodes_visited >= old(state).nodes_visited,
            time_control.next_check_at >= old(time_control).next_check_at,
            old(time_control).stop_seen ==> time_control.stop_seen,
            time_control.time_control == old(time_control).time_control,
            stuck ==> number_of_legal_moves == 0 && pv@ == old(pv)@,
            stuck == (previous_best_move is None && no_moves(*old(game))),
            lookup_in(old(persistent_state).tt.slots(), old(game).zobrist) is None ==> previous_best_move is None,
            !is_root && old(state).nodes_visited < u64::MAX ==> state.nodes_visited > old(state).nodes_visited,
            c1 ==> (depth == 1 && plies == 0 && legal.finite()),
            c2 && tt_node_bound == NodeBound::Lower ==> best_eval.0 >= beta.0 && number_of_legal_moves > 0,
            c2 && tt_node_bound != NodeBound::Lower ==> {
                &&& (number_of_legal_moves == 0 ==> forall|m: Move| #[trigger] legal.contains(m) ==> start.board.at(m.src_spec()) is None)
                &&& best_eval.0 > alpha0 ==> pv@.len() >= 1 && legal.contains(pv@[0])
            },
            c1 && tt_node_bound == NodeBound::Lower ==> best_eval.0 >= beta.0 && number_of_legal_moves > 0
                && exists|m: Move| #[trigger] legal.contains(m) && reply_value(start, m, 1) >= best_eval.0,
            c1 && tt_node_bound != NodeBound::Lower ==> {
                &&& best_eval.0 < beta.0
                &&& best_eval.0 > alpha0 ==> pv@.len() >= 1 && legal.contains(pv@[0])
                    && reply_value(start, pv@[0], 1) == best_eval.0
                &&& (number_of_legal_moves == 0 ==> best_eval.0 == i16::MIN)
                &&& (number_of_legal_moves > 0 ==> exists|m: Move| #[trigger] legal.contains(m) && reply_value(start, m, 1) > i16::MIN)
                &&& forall|m: Move| #[trigger] legal.contains(m) ==> reply_value(start, m, 1) <= best_eval.0
                &&& best_eval.0 > alpha0 && best_eval.0 < beta.0 ==>
                    exists|m: Move| #[trigger] legal.contains(m) && reply_value(start, m, 1) == best_eval.0
            },
        decreases 8 - stage_rank(moves.stage_of()), moves.waiting_count(),
    {
        let ghost handed_before = moves.handed();
        let mv = match moves.next(game, persistent_state, state, plies) {
            Some(m) => m,
            None => {
                proof {
                    if c2 {
                        assert forall|m: Move| #[trigger] legal.contains(m) implies moves.handed().contains(m) by {
                            lemma_same_position_legal_move(*game, start, true, m);
                        }
                    }
                    if c1 {
                        assert forall|m: Move| #[trigger] legal.contains(m) implies moves.handed().contains(m) by {
                            lemma_same_position_legal_move(*game, start, true, m);
                        }
                        lemma_root_done(moves.handed(), start, best_eval.0 as int, number_of_legal_moves as int, alpha0);
                    }
                }
                break;
            },
        };
        proof {
            if stuck {
                lemma_no_move_handed_out(*old(game), *game, mv);
                assert(false);
            }
            if c1 || c2 {
                lemma_same_position_legal_move(*game, start, true, mv);
                assert(legal.contains(mv));
            }
        }
        if game.board.piece_at(mv.src()).is_none() {
            proof {
                if c1 {
                    lemma_root_skip(handed_before, mv, start, best_eval.0 as int, number_of_legal_moves as int, alpha0);
                }
            }
            continue;
        }
        let ghost searched_before = number_of_legal_moves as int;
        number_of_legal_moves = number_of_legal_moves.saturating_add(1);
        node_pv.clear();

        let ghost before = *game;
        proof {
            if c1 {
                lemma_root_reply(start, before, mv);
            }
        }
        let ghost alpha_cur = alpha.0 as int;

        let result = search_move(game, mv, number_of_legal_moves == 1, alpha, beta, depth, plies, persistent_state,
            &mut node_pv, time_control, state);
        let move_score = match result {
            Ok(v) => v,
            Err(e) => return Err(e),
        };
        proof {
            moves.lemma_wf_for_same(before, *game);
        }
        let ghost best_before = best_eval.0 as int;

        if move_score.0 > best_eval.0 || best_move.is_none() {
            best_move = Some(mv);
            best_eval = move_score;
        }

        // Cutoff: This move is so good that our opponent won't let it be played.
        if move_score.0 >= beta.0 {
            tt_node_bound = NodeBound::Lower;
            proof {
                if c1 {
                    assert(legal.contains(mv));
                }
            }
            break;
        }

        if move_score.0 > alpha.0 {
            alpha = move_score;
            tt_node_bound = NodeBound::Exact;
            pv.push(mv, &node_pv);
        }
        proof {
            if c1 {
                lemma_root_move(handed_before, mv, start, best_before, searched_before, alpha0,
                    alpha_cur, move_score.0 as int, beta.0 as int, best_eval.0 as int, number_of_legal_moves as int);
            }
        }
    }

    proof {
        if c2 && exists|m: Move| #[trigger] legal_move(start, true, m) && start.board.at(m.src_spec()) is Some {
            let w = choose|m: Move| #[trigger] legal_move(start, true, m) && start.board.at(m.src_spec()) is Some;
            assert(legal.contains(w));
            assert(start == *old(game));
        }
        if c1 {
            reveal(one_ply_value);
            lemma_fold_best(legal, i16::MIN as int, start, 1);
            assert(start == *old(game));
            lemma_quiet_one_ply(start, Move(0));
            if number_of_legal_moves == 0 && tt_node_bound != NodeBound::Lower
                && exists|m: Move| #[trigger] legal_move(start, true, m) && start.board.at(m.src_spec()) is Some {
                let m = choose|m: Move| #[trigger] legal_move(start, true, m) && start.board.at(m.src_spec()) is Some;
                assert(legal.contains(m));
                lemma_quiet_value_range(successor(start, m), 1);
            }
        }
    }
    if number_of_legal_moves == 0 {
        return Ok(if game.is_king_in_check() { Eval::mated_in(plies) } else { Eval::draw() });
    }

    if tt_node_bound == NodeBound::Lower {
        if let Some(mv) = best_move {
            // 'Killers': if a move was so good that it caused a beta cutoff,
            // but it wasn't a capture, we remember it so that we can try it
            // before other quiet moves.
            if game.board.piece_at(mv.dst()).is_none() {
                state.killer_moves.try_push(plies, mv);
                persistent_state.history_table.add_bonus_for(game.player, mv, depth);
            }
        }
    }

    let tt_data = SearchTranspositionTableData {
        bound: tt_node_bound,
        eval: best_eval.with_mate_distance_from_position(plies),
        best_move: match best_move {
            Some(m) => Some(TTMove::from_move(m)),
            None => None,
        },
        age: persistent_state.tt.generation(),
        depth,
    };
    persistent_state.tt.insert(&game.zobrist, tt_data);

    Ok(best_eval)
}

} // verus!
