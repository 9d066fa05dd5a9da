//! Quiescence search: at the end of the main search, captures are searched
//! on until the position is quiet, so that the evaluation is not taken in
//! the middle of an exchange.

use vstd::prelude::*;
use crate::chess::game::{Game, same_state, lemma_make_undo, drawn_by_rule, successor, lemma_successor, lemma_successor_same};
use crate::chess::movegen::gen::legal_move;
use crate::chess::moves::{Move, lemma_move_sets_finite};
use crate::chess::piece::PieceKind;
use crate::engine::eval::{eval_clamped, static_eval};
use crate::engine::eval::tapered_eval::clamp_i16;
use crate::engine::eval::player_eval::seen_by;
use crate::engine::eval::player_eval::{Eval, negated};
use crate::engine::search::move_provider::{MoveProvider, lemma_same_position_legal_move, stage_rank};
use crate::engine::search::state::{PersistentState, SearchState};
use crate::engine::search::time_control::TimeStrategy;
use crate::engine::search::MAX_SEARCH_DEPTH;

verus! {

/// The score of standing pat: the static evaluation for the player to move.
pub open spec fn stand_pat(g: Game) -> int {
    seen_by(clamp_i16(static_eval(g.board)), g.player)
}

/// The captures (and queen promotions) the player to move can play.
pub open spec fn capture_set(g: Game) -> Set<Move> {
    Set::new(|m: Move| legal_move(g, false, m))
}

/// The value of the position `plies` below the root when only captures are
/// searched: the static evaluation with no single king to move or at the
/// deepest ply, a draw when drawn by rule, and otherwise the best of
/// standing pat and the negated values of the positions the captures lead
/// to.
pub closed spec fn quiet_value(g: Game, plies: nat) -> int
    decreases MAX_SEARCH_DEPTH - plies, 0nat,
{
    if plies >= MAX_SEARCH_DEPTH || g.board.set_of(g.player, PieceKind::King).len() != 1 {
        stand_pat(g)
    } else if drawn_by_rule(g) {
        0
    } else {
        capture_set(g).fold(stand_pat(g), best_reply(g, plies + 1))
    }
}

/// The negated value of the position a capture leads to, `plies` below the
/// root (the least score for a move whose source square is empty).
pub open spec fn reply_value(g: Game, m: Move, plies: nat) -> int
    decreases MAX_SEARCH_DEPTH - plies, 1nat,
{
    if plies <= MAX_SEARCH_DEPTH && g.board.at(m.src_spec()) is Some {
        negated(quiet_value(successor(g, m), plies))
    } else {
        i16::MIN as int
    }
}

/// Keeps the better of a running score and the reply of a move.
pub open spec fn best_reply(g: Game, plies: nat) -> spec_fn(int, Move) -> int
    decreases MAX_SEARCH_DEPTH - plies, 2nat,
{
    |acc: int, m: Move| if reply_value(g, m, plies) > acc { reply_value(g, m, plies) } else { acc }
}

/// The best of a start and the replies of a finite set of moves is at least
/// the start and each reply, and is the start or one of the replies.
pub proof fn lemma_fold_best(s: Set<Move>, init: int, g: Game, plies: nat)
    requires s.finite(),
    ensures
        s.fold(init, best_reply(g, plies)) >= init,
        forall|m: Move| #[trigger] s.contains(m) ==> reply_value(g, m, plies) <= s.fold(init, best_reply(g, plies)),
        s.fold(init, best_reply(g, plies)) == init
            || exists|m: Move| #[trigger] s.contains(m) && reply_value(g, m, plies) == s.fold(init, best_reply(g, plies)),
    decreases s.len(),
{
    let f = best_reply(g, plies);
    if s.len() == 0 {
        assert(s =~= Set::<Move>::empty());
        vstd::set::fold::lemma_fold_empty(init, f);
    } else {
        let x = s.choose();
        let t = s.remove(x);
        lemma_fold_best(t, init, g, plies);
        assert(s =~= t.insert(x));
        assert(vstd::set::fold::is_fun_commutative(f)) by {
            assert forall|a1: Move, a2: Move, b: int| #[trigger] f(f(b, a2), a1) == f(f(b, a1), a2) by {}
        }
        vstd::set::fold::lemma_fold_insert(t, init, f, x);
        let v = s.fold(init, f);
        assert forall|m: Move| #[trigger] s.contains(m) implies reply_value(g, m, plies) <= v by {
            if m != x {
                assert(t.contains(m));
            }
        }
        if v != init && v != reply_value(g, x, plies) {
            let m = choose|m: Move| #[trigger] t.contains(m) && reply_value(g, m, plies) == t.fold(init, f);
            assert(s.contains(m));
        }
    }
}

/// The value lies in the range of an evaluation.
pub proof fn lemma_quiet_value_range(g: Game, plies: nat)
    ensures i16::MIN <= quiet_value(g, plies) <= i16::MAX,
    decreases MAX_SEARCH_DEPTH - plies,
{
    if plies >= MAX_SEARCH_DEPTH || g.board.set_of(g.player, PieceKind::King).len() != 1 {
    } else if drawn_by_rule(g) {
    } else {
        let cp = plies + 1;
        lemma_move_sets_finite(capture_set(g));
        lemma_fold_best(capture_set(g), stand_pat(g), g, cp);
        let v = quiet_value(g, plies);
        if v != stand_pat(g) {
            let m = choose|m: Move| #[trigger] capture_set(g).contains(m) && reply_value(g, m, cp) == v;
            if g.board.at(m.src_spec()) is Some {
                lemma_quiet_value_range(successor(g, m), cp);
            }
        }
    }
}

/// With no single king to move or at the deepest ply the value is the
/// static evaluation; otherwise, drawn by rule, it is a draw.
pub proof fn lemma_quiet_value_base(g: Game, plies: nat)
    ensures
        plies >= MAX_SEARCH_DEPTH || g.board.set_of(g.player, PieceKind::King).len() != 1
            ==> quiet_value(g, plies) == stand_pat(g),
        plies < MAX_SEARCH_DEPTH && g.board.set_of(g.player, PieceKind::King).len() == 1 && drawn_by_rule(g)
            ==> quiet_value(g, plies) == 0,
{
}

/// The value depends on the state of the game only.
pub proof fn lemma_quiet_value_same(a: Game, b: Game, plies: nat)
    requires same_state(a, b),
    ensures quiet_value(a, plies) == quiet_value(b, plies),
{
    reveal(drawn_by_rule);
    assert forall|m: Move| legal_move(a, true, m) == legal_move(b, true, m) && legal_move(a, false, m) == legal_move(b, false, m) by {
        lemma_same_position_legal_move(a, b, true, m);
        lemma_same_position_legal_move(a, b, false, m);
    }
    assert(drawn_by_rule(a) == drawn_by_rule(b));
    assert(capture_set(a) =~= capture_set(b));
    assert forall|m: Move| successor(a, m) == successor(b, m) by {
        lemma_successor_same(a, b, m);
    }
    assert(best_reply(a, plies + 1) =~= best_reply(b, plies + 1));
}

/// What a child searched within the window from `-b` to `-a` tells of the
/// move: a score at or above `b` is a bound below on the reply, a score
/// below it a bound above, and a score between `a` and `b` the reply itself.
pub proof fn lemma_child_bounds(vc: int, qc: int, a: int, b: int)
    requires
        i16::MIN <= a < b <= i16::MAX,
        i16::MIN <= vc <= i16::MAX,
        i16::MIN <= qc <= i16::MAX,
        vc <= negated(b) ==> qc <= vc,
        vc >= negated(a) ==> qc >= vc,
        negated(b) < vc < negated(a) ==> qc == vc,
    ensures
        negated(vc) >= b ==> negated(qc) >= negated(vc),
        negated(vc) < b ==> negated(qc) <= negated(vc),
        a < negated(vc) < b ==> negated(qc) == negated(vc),
{
}

/// One more move handed out keeps the best score an upper bound of the
/// replies handed out, and (above alpha) the stand-pat score or one of them.
pub proof fn lemma_step(
    handed: Set<Move>,
    mv: Move,
    start: Game,
    cp: nat,
    best_before: int,
    best_after: int,
    eval: int,
    alpha0: int,
)
    requires
        forall|m: Move| #[trigger] handed.contains(m) ==> reply_value(start, m, cp) <= best_before,
        best_before > alpha0 ==> best_before == eval
            || exists|m: Move| #[trigger] handed.contains(m) && reply_value(start, m, cp) == best_before,
        best_after >= best_before,
        reply_value(start, mv, cp) <= best_after,
        best_after != best_before && best_after > alpha0 ==> reply_value(start, mv, cp) == best_after,
    ensures
        forall|m: Move| #[trigger] handed.insert(mv).contains(m) ==> reply_value(start, m, cp) <= best_after,
        best_after > alpha0 ==> best_after == eval
            || exists|m: Move| #[trigger] handed.insert(mv).contains(m) && reply_value(start, m, cp) == best_after,
{
    if best_after > alpha0 && best_after != eval {
        if best_after != best_before {
            assert(handed.insert(mv).contains(mv));
        } else {
            let w = choose|m: Move| #[trigger] handed.contains(m) && reply_value(start, m, cp) == best_before;
            assert(handed.insert(mv).contains(w));
        }
    }
}

/// The score of the position for the player to move, searching captures
/// only, within the window from `alpha` to `beta`. `Err` when the time ran
/// out; the game is then left where the search stopped. On `Ok` the game
/// is as it was.
#[verifier::rlimit(60)]
pub fn quiescence(
    game: &mut Game,
    alpha: Eval,
    beta: Eval,
    plies: u8,
    time_control: &mut TimeStrategy,
    persistent_state: &mut PersistentState,
    state: &mut SearchState,
) -> (r: Result<Eval, ()>)
    requires
        old(game).wf(),
        old(persistent_state).wf(),
        old(state).wf(),
        old(time_control).wf(),
    ensures
        final(game).wf(),
        final(persistent_state).wf(),
        final(state).wf(),
        final(time_control).wf(),
        r is Ok ==> same_state(*final(game), *old(game)),
        // The node count only grows, the clock is looked at no earlier than
        // planned, and the search gives up only once the node count reached
        // the next look at the clock.
        final(state).nodes_visited >= old(state).nodes_visited,
        // Every call counts its node (up to the largest count).
        old(state).nodes_visited < u64::MAX ==> final(state).nodes_visited > old(state).nodes_visited,
        final(time_control).next_check_at >= old(time_control).next_check_at,
        r is Err ==> final(state).nodes_visited >= old(time_control).next_check_at,
        old(time_control).stop_seen ==> final(time_control).stop_seen,
        final(time_control).time_control == old(time_control).time_control,
        r is Err && !final(time_control).stop_seen ==> !(old(time_control).time_control is Infinite),
        // With no single king to move, or at the deepest ply: the static evaluation.
        old(game).board.set_of(old(game).player, PieceKind::King).len() != 1 || plies == MAX_SEARCH_DEPTH
            ==> (r matches Ok(e) && e.0 == stand_pat(*old(game))),
        // A position drawn by rule scores a draw.
        old(game).board.set_of(old(game).player, PieceKind::King).len() == 1 && plies < MAX_SEARCH_DEPTH
            && drawn_by_rule(*old(game)) ==> r == Ok::<Eval, ()>(Eval(0)),
        // Otherwise the player to move can always stand pat: the score is at
        // least the static evaluation, and is exactly it when that reaches beta.
        old(game).board.set_of(old(game).player, PieceKind::King).len() == 1 && plies < MAX_SEARCH_DEPTH
            && !drawn_by_rule(*old(game)) ==> (r matches Ok(e) ==> {
                &&& e.0 >= stand_pat(*old(game))
                &&& stand_pat(*old(game)) >= beta.0 ==> e.0 == stand_pat(*old(game))
            }),
        // The score is the value of the position, as alpha-beta gives it:
        // exact inside the window, a bound above at or below alpha, a bound
        // below at or above beta.
        alpha.0 < beta.0 && (alpha.0 > i16::MIN || stand_pat(*old(game)) > i16::MIN) ==> (r matches Ok(v) ==> {
            &&& v.0 <= alpha.0 ==> quiet_value(*old(game), plies as nat) <= v.0
            &&& v.0 >= beta.0 ==> quiet_value(*old(game), plies as nat) >= v.0
            &&& alpha.0 < v.0 < beta.0 ==> quiet_value(*old(game), plies as nat) == v.0
        }),
    decreases MAX_SEARCH_DEPTH - plies,
{
    let ghost alpha0 = alpha.0 as int;
    let mut window_alpha = alpha;
    if plies > state.max_depth_reached {
        state.max_depth_reached = plies;
    }
    state.nodes_visited = state.nodes_visited.saturating_add(1);

    // Only a position with one king to move in can be searched on.
    if game.board.king(game.player).count() != 1 || plies == MAX_SEARCH_DEPTH {
        return Ok(eval_clamped(game));
    }

    let drawn = game.is_repeated_position() || game.is_stalemate_by_fifty_move_rule()
        || game.is_stalemate_by_insufficient_material();
    proof { reveal(drawn_by_rule); }
    if drawn {
        return Ok(Eval::draw());
    }

    // Check periodically to see if we're out of time. If we are, we shouldn't continue the search
    // so we return Err to signal to the caller that the search did not complete.
    if time_control.should_stop(state.nodes_visited) {
        return Err(());
    }

    let ghost start = *game;
    let ghost cp = (plies + 1) as nat;
    let ghost cond = alpha.0 < beta.0 && (alpha.0 > i16::MIN || stand_pat(start) > i16::MIN);
    let ghost captures = capture_set(start);
    proof {
        lemma_move_sets_finite(captures);
        lemma_fold_best(captures, stand_pat(start), start, cp);
    }
    let eval = eval_clamped(game);
    if eval.0 >= beta.0 {
        return Ok(eval);
    }
    if eval.0 > window_alpha.0 {
        window_alpha = eval;
    }
    let mut best_eval = eval;

    let mut moves = MoveProvider::new_loud();
    loop
        invariant
            game.wf(),
            same_state(*game, start),
            start.wf(),
            start.board.set_of(start.player, PieceKind::King).len() == 1,
            persistent_state.wf(),
            state.wf(),
            time_control.wf(),
            moves.wf_for(*game),
            moves.captures_only(),
            moves.first_move() is None,
            plies < MAX_SEARCH_DEPTH,
            cp == plies + 1,
            start == *old(game),
            captures == capture_set(start),
            captures.finite(),
            eval.0 == stand_pat(start),
            eval.0 < beta.0,
            best_eval.0 >= eval.0,
            best_eval.0 < beta.0,
            alpha0 == alpha.0,
            window_alpha.0 == (if alpha0 > best_eval.0 { alpha0 } else { best_eval.0 as int }),
            alpha.0 < beta.0 && (alpha.0 > i16::MIN || stand_pat(start) > i16::MIN) ==> window_alpha.0 > i16::MIN,
            !drawn_by_rule(start),
            quiet_value(start, plies as nat) == captures.fold(stand_pat(start), best_reply(start, cp)),
            forall|m: Move| #[trigger] moves.handed().contains(m) ==> captures.contains(m),
            cond == (alpha.0 < beta.0 && (alpha.0 > i16::MIN || stand_pat(start) > i16::MIN)),
            cond ==> forall|m: Move| #[trigger] moves.handed().contains(m) ==> reply_value(start, m, cp) <= best_eval.0,
            cond && best_eval.0 > alpha0 ==> best_eval.0 == eval.0
                || exists|m: Move| #[trigger] moves.handed().contains(m) && reply_value(start, m, cp) == best_eval.0,
            state.nodes_visited >= old(state).nodes_visited,
            old(state).nodes_visited < u64::MAX ==> state.nodes_visited > old(state).nodes_visited,
            time_control.next_check_at >= old(time_control).next_check_at,
            old(time_control).stop_seen ==> time_control.stop_seen,
            time_control.time_control == old(time_control).time_control,
        decreases 8 - stage_rank(moves.stage_of()), moves.waiting_count(),
    {
        let ghost handed_before = moves.handed();
        let mv = match moves.next(game, persistent_state, state, plies) {
            Some(m) => m,
            None => {
                proof {
                    assert forall|m: Move| #[trigger] captures.contains(m) implies moves.handed().contains(m) by {
                        lemma_same_position_legal_move(*game, start, false, m);
                    }
                    let q = quiet_value(start, plies as nat);
                    lemma_fold_best(captures, stand_pat(start), start, cp);
                    if q != stand_pat(start) {
                        let m = choose|m: Move| #[trigger] captures.contains(m) && reply_value(start, m, cp) == q;
                        assert(moves.handed().contains(m));
                    }
                    if cond && best_eval.0 > alpha0 && best_eval.0 != eval.0 {
                        let m = choose|m: Move| #[trigger] moves.handed().contains(m) && reply_value(start, m, cp) == best_eval.0;
                        assert(captures.contains(m));
                    }
                }
                return Ok(best_eval);
            },
        };
        proof {
            lemma_same_position_legal_move(*game, start, false, mv);
            assert(captures.contains(mv));
        }
        if game.board.piece_at(mv.src()).is_none() {
            proof {
                assert(reply_value(start, mv, cp) == i16::MIN);
                if cond { lemma_step(handed_before, mv, start, cp, best_eval.0 as int, best_eval.0 as int, eval.0 as int, alpha0); }
            }
            continue;
        }
        let ghost before = *game;
        game.make_move(mv);
        let ghost after = *game;
        let score = quiescence(game, beta.neg(), window_alpha.neg(), plies + 1, time_control, persistent_state, state);
        let move_score = match score {
            Ok(v) => v.neg(),
            Err(e) => return Err(e),
        };
        game.undo_move();
        let ghost child_score = match score { Ok(v) => v.0 as int, Err(_) => 0 };
        proof {
            lemma_make_undo(before, after, *game, Some(mv));
            moves.lemma_wf_for_same(before, *game);
            lemma_successor(before, mv, after);
            lemma_successor_same(before, start, mv);
            lemma_quiet_value_same(after, successor(start, mv), cp);
            assert(reply_value(start, mv, cp) == negated(quiet_value(after, cp)));
        }
        let ghost best_before = best_eval.0 as int;
        let ghost alpha_before = window_alpha.0 as int;
        proof {
            if cond {
                lemma_quiet_value_range(after, cp);
                lemma_child_bounds(child_score, quiet_value(after, cp), alpha_before, beta.0 as int);
            }
        }

        if move_score.0 > best_eval.0 {
            best_eval = move_score;
        }
        // Cutoff: This move is so good that our opponent won't let it be played.
        if move_score.0 >= beta.0 {
            proof {
                lemma_fold_best(captures, stand_pat(start), start, cp);
            }
            return Ok(best_eval);
        }
        if move_score.0 > window_alpha.0 {
            window_alpha = move_score;
        }
        proof {
            if cond {
                lemma_step(handed_before, mv, start, cp, best_before, best_eval.0 as int, eval.0 as int, alpha0);
            }
        }
    }
}

} // verus!
