//! Aspiration windows: searching with bounds close to the expected score,
//! widening them when the score falls outside.

use vstd::prelude::*;
use crate::chess::game::{Game, same_state};
use crate::engine::eval::player_eval::{Eval, saturate, seen_by};
use crate::engine::eval::static_eval;
use crate::engine::eval::tapered_eval::clamp_i16;
use crate::chess::piece::PieceKind;
use crate::engine::search::negamax::{negamax, one_ply_value, quiet_one_ply};
use crate::engine::transposition_table::lookup_in;
use crate::engine::search::quiescence::reply_value;
use crate::chess::movegen::gen::legal_move;
use crate::chess::moves::Move;
use crate::engine::search::principal_variation::{PrincipalVariation, MAX_PV_LENGTH};
use crate::engine::search::state::{PersistentState, SearchState};
use crate::engine::search::time_control::TimeStrategy;

verus! {

/// The width of the first window around the expected score.
pub const ASPIRATION_WINDOW_SIZE: i16 = 25;

/// The search depth from which windows are used.
pub const ASPIRATION_MIN_DEPTH: u8 = 5;

/// The width beyond which the window opens fully.
pub const ASPIRATION_WINDOW_MAX_SIZE: i16 = 1000;

/// The bounds of a search and the step by which they widen.
#[derive(Debug, Clone, Copy)]
pub struct Window {
    pub alpha: Eval,
    pub beta: Eval,
    pub width: Eval,
}

/// Twice a width, limited to the range of an evaluation.
pub open spec fn doubled(w: int) -> int {
    saturate(2 * w)
}

/// The window after a score it does not accept: twice as wide; beyond the
/// greatest width fully open; widened downwards after a score at or below
/// alpha and upwards otherwise.
pub open spec fn settled(w: Window, v: Eval) -> Window {
    let width = doubled(w.width.0 as int);
    let opened = width > ASPIRATION_WINDOW_MAX_SIZE;
    if v.0 <= w.alpha.0 {
        Window {
            alpha: Eval(saturate((if opened { i16::MIN as int } else { w.alpha.0 as int }) - width) as i16),
            beta: Eval(if opened { i16::MAX } else { w.beta.0 }),
            width: Eval(width as i16),
        }
    } else {
        Window {
            alpha: Eval(if opened { i16::MIN } else { w.alpha.0 }),
            beta: Eval(saturate((if opened { i16::MAX as int } else { w.beta.0 as int }) + width) as i16),
            width: Eval(width as i16),
        }
    }
}

/// The first window of a search to a depth: fully open below
/// `ASPIRATION_MIN_DEPTH` or without an expected score, and otherwise
/// `ASPIRATION_WINDOW_SIZE` on either side of the expected score.
pub open spec fn first_window(depth: u8, eval: Option<Eval>) -> Window {
    match eval {
        Some(e) if depth >= ASPIRATION_MIN_DEPTH => Window {
            alpha: Eval(saturate(e.0 - ASPIRATION_WINDOW_SIZE) as i16),
            beta: Eval(saturate(e.0 + ASPIRATION_WINDOW_SIZE) as i16),
            width: Eval(ASPIRATION_WINDOW_SIZE),
        },
        _ => Window { alpha: Eval(i16::MIN), beta: Eval(i16::MAX), width: Eval(0) },
    }
}

/// The window after widening from `w0` for each of `scores` in turn.
pub open spec fn window_after(w0: Window, scores: Seq<Eval>) -> Window
    decreases scores.len(),
{
    if scores.len() == 0 {
        w0
    } else {
        settled(window_after(w0, scores.drop_last()), scores.last())
    }
}

/// Whether each of `scores` fell outside the window it was searched with,
/// starting from `w0`.
pub open spec fn all_outside(w0: Window, scores: Seq<Eval>) -> bool {
    forall|i: int| #![trigger scores[i]] 0 <= i < scores.len() ==> !window_after(w0, scores.take(i)).accepts(scores[i])
}

impl Window {
    /// Whether the window is fully open.
    pub open spec fn fully_open(self) -> bool {
        self.alpha.0 == i16::MIN && self.beta.0 == i16::MAX
    }

    /// Whether a score searched with the window is final: the window is
    /// fully open, or the score lies strictly inside it.
    pub open spec fn accepts(self, v: Eval) -> bool {
        self.fully_open() || (self.alpha.0 < v.0 && v.0 < self.beta.0)
    }

    /// Decides on a score searched with the window. It is final when the
    /// window accepts it, and the window stays; otherwise the window widens
    /// downwards after a score at or below alpha and upwards after one at or
    /// above beta.
    pub fn settle(&mut self, v: Eval) -> (done: bool)
        ensures
            done == old(self).accepts(v),
            done ==> *final(self) == *old(self),
            !done ==> *final(self) == settled(*old(self), v),
            !done && v.0 <= old(self).alpha.0 ==> {
                &&& final(self).width.0 == doubled(old(self).width.0 as int)
                &&& final(self).beta.0 == (if final(self).width.0 > ASPIRATION_WINDOW_MAX_SIZE { i16::MAX as int } else { old(self).beta.0 as int })
                &&& final(self).alpha.0 == saturate(
                    (if final(self).width.0 > ASPIRATION_WINDOW_MAX_SIZE { i16::MIN as int } else { old(self).alpha.0 as int })
                    - final(self).width.0)
            },
            !done && v.0 > old(self).alpha.0 ==> {
                &&& v.0 >= old(self).beta.0
                &&& final(self).width.0 == doubled(old(self).width.0 as int)
                &&& final(self).alpha.0 == (if final(self).width.0 > ASPIRATION_WINDOW_MAX_SIZE { i16::MIN as int } else { old(self).alpha.0 as int })
                &&& final(self).beta.0 == saturate(
                    (if final(self).width.0 > ASPIRATION_WINDOW_MAX_SIZE { i16::MAX as int } else { old(self).beta.0 as int })
                    + final(self).width.0)
            },
    {
        let fully_open = self.alpha.0 == i16::MIN && self.beta.0 == i16::MAX;
        if fully_open {
            return true;
        }
        if v.0 <= self.alpha.0 {
            self.widen_down();
            false
        } else if v.0 >= self.beta.0 {
            self.widen_up();
            false
        } else {
            true
        }
    }

    /// The widest window.
    pub fn no_window() -> (w: Self)
        ensures w.alpha.0 == i16::MIN, w.beta.0 == i16::MAX, w.width.0 == 0,
    {
        Window { alpha: Eval::min(), beta: Eval::max(), width: Eval(0) }
    }

    /// The window of `width` on either side of `eval`, within the range of
    /// an evaluation.
    pub fn around(eval: Eval, width: Eval) -> (w: Self)
        ensures
            w.alpha.0 == saturate(eval.0 - width.0),
            w.beta.0 == saturate(eval.0 + width.0),
            w.width == width,
    {
        Window {
            alpha: Eval(clamp(eval.0 as i32 - width.0 as i32)),
            beta: Eval(clamp(eval.0 as i32 + width.0 as i32)),
            width,
        }
    }

    /// Doubles the width; past the greatest width the window opens fully.
    fn increase_window_widening_rate(&mut self)
        ensures
            final(self).width.0 == doubled(old(self).width.0 as int),
            final(self).width.0 > ASPIRATION_WINDOW_MAX_SIZE ==> final(self).alpha.0 == i16::MIN && final(self).beta.0 == i16::MAX,
            final(self).width.0 <= ASPIRATION_WINDOW_MAX_SIZE ==> final(self).alpha == old(self).alpha && final(self).beta == old(self).beta,
    {
        self.width = Eval(clamp(self.width.0 as i32 * 2));
        if self.width.0 > ASPIRATION_WINDOW_MAX_SIZE {
            self.alpha = Eval::min();
            self.beta = Eval::max();
        }
    }

    /// Widens the window downwards after a score at or below it.
    pub fn widen_down(&mut self)
        ensures
            final(self).width.0 == doubled(old(self).width.0 as int),
            final(self).beta.0 == (if final(self).width.0 > ASPIRATION_WINDOW_MAX_SIZE { i16::MAX as int } else { old(self).beta.0 as int }),
            final(self).alpha.0 == saturate(
                (if final(self).width.0 > ASPIRATION_WINDOW_MAX_SIZE { i16::MIN as int } else { old(self).alpha.0 as int })
                - final(self).width.0),
    {
        self.increase_window_widening_rate();
        self.alpha = Eval(clamp(self.alpha.0 as i32 - self.width.0 as i32));
    }

    /// Widens the window upwards after a score at or above it.
    pub fn widen_up(&mut self)
        ensures
            final(self).width.0 == doubled(old(self).width.0 as int),
            final(self).alpha.0 == (if final(self).width.0 > ASPIRATION_WINDOW_MAX_SIZE { i16::MIN as int } else { old(self).alpha.0 as int }),
            final(self).beta.0 == saturate(
                (if final(self).width.0 > ASPIRATION_WINDOW_MAX_SIZE { i16::MAX as int } else { old(self).beta.0 as int })
                + final(self).width.0),
    {
        self.increase_window_widening_rate();
        self.beta = Eval(clamp(self.beta.0 as i32 + self.width.0 as i32));
    }
}

/// Searches the position to a depth from the root, with a window around
/// the score of the previous depth from `ASPIRATION_MIN_DEPTH` on, widening
/// it until the score falls inside (or the window is fully open).
pub fn aspiration_search(
    game: &mut Game,
    depth: u8,
    eval: Option<Eval>,
    pv: &mut PrincipalVariation,
    persistent_state: &mut PersistentState,
    state: &mut SearchState,
    time_control: &mut TimeStrategy,
) -> (r: Result<Eval, ()>)
    requires
        old(game).wf(),
        old(persistent_state).wf(),
        old(state).wf(),
        old(time_control).wf(),
        old(pv)@.len() <= MAX_PV_LENGTH,
        depth >= ASPIRATION_MIN_DEPTH ==> eval is Some,
    ensures
        final(game).wf(),
        final(persistent_state).wf(),
        final(state).wf(),
        final(time_control).wf(),
        final(pv)@.len() <= MAX_PV_LENGTH,
        r is Ok ==> same_state(*final(game), *old(game)),
        // The node count only grows, the clock is looked at no earlier than
        // planned, and the search gives up only once the node count reached
        // the next look at the clock.
        final(state).nodes_visited >= old(state).nodes_visited,
        final(time_control).next_check_at >= old(time_control).next_check_at,
        old(time_control).stop_seen ==> final(time_control).stop_seen,
        final(time_control).time_control == old(time_control).time_control,
        r is Err && !final(time_control).stop_seen ==> !(old(time_control).time_control is Infinite),
        r is Err ==> final(state).nodes_visited >= old(time_control).next_check_at || final(time_control).stop_seen,
        // A position with no single king to move scores its static evaluation.
        old(game).board.set_of(old(game).player, PieceKind::King).len() != 1
            ==> (r matches Ok(e) && e.0 == seen_by(clamp_i16(static_eval(old(game).board)), old(game).player)),
        // A score comes from a search with a window that accepts it: the
        // first window, or one reached by widening after the scores that the
        // windows before it did not accept.
        r matches Ok(v) ==> exists|scores: Seq<Eval>| all_outside(first_window(depth, eval), scores)
            && #[trigger] window_after(first_window(depth, eval), scores).accepts(v),
        // Below the depth of the windows the search is one with the full
        // window: one ply deep where no move goes deeper, with nothing stored
        // for the position, the score is the best reply (a bound at the ends
        // of the range).
        depth == 1 && quiet_one_ply(*old(game))
            && lookup_in(old(persistent_state).tt.slots(), old(game).zobrist) is None
            ==> (r matches Ok(v) ==> {
                &&& i16::MIN < v.0 < i16::MAX ==> one_ply_value(*old(game)) == v.0
                &&& v.0 == i16::MAX ==> one_ply_value(*old(game)) >= v.0
                &&& v.0 == i16::MIN ==> one_ply_value(*old(game)) <= v.0
                &&& i16::MIN < v.0 < i16::MAX
                    && (exists|m: Move| #[trigger] legal_move(*old(game), true, m) && old(game).board.at(m.src_spec()) is Some)
                    ==> final(pv)@.len() >= 1
                        && legal_move(*old(game), true, final(pv)@[0])
                        && reply_value(*old(game), final(pv)@[0], 1) == v.0
            }),
{
    let mut window = if depth < ASPIRATION_MIN_DEPTH {
        Window::no_window()
    } else {
        match eval {
            Some(e) => Window::around(e, Eval(ASPIRATION_WINDOW_SIZE)),
            None => Window::no_window(),
        }
    };
    let ghost start = *game;
    let ghost first = first_window(depth, eval);
    let ghost mut tried: Seq<Eval> = Seq::empty();
    proof {
        assert(window == first);
    }
    loop
        invariant
            game.wf(),
            same_state(*game, start),
            start == *old(game),
            persistent_state.wf(),
            state.wf(),
            time_control.wf(),
            pv@.len() <= MAX_PV_LENGTH,
            !(window.alpha.0 == i16::MIN && window.beta.0 == i16::MAX) ==> 0 < window.width.0 <= ASPIRATION_WINDOW_MAX_SIZE,
            window.width.0 >= 0,
            state.nodes_visited >= old(state).nodes_visited,
            time_control.next_check_at >= old(time_control).next_check_at,
            old(time_control).stop_seen ==> time_control.stop_seen,
            time_control.time_control == old(time_control).time_control,
            first == first_window(depth, eval),
            all_outside(first, tried),
            window == window_after(first, tried),
            depth < ASPIRATION_MIN_DEPTH ==> window.alpha.0 == i16::MIN && window.beta.0 == i16::MAX
                && *persistent_state == *old(persistent_state) && *game == *old(game),
        decreases 40000 - window.width.0,
    {
        let result = negamax(game, window.alpha, window.beta, depth, 0, persistent_state, pv, time_control, state);
        let score = match result {
            Ok(v) => v,
            Err(e) => return Err(e),
        };
        let ghost before = window;
        if window.settle(score) {
            return Ok(score);
        }
        proof {
            let next = tried.push(score);
            assert(next.drop_last() =~= tried);
            assert(window_after(first, next) == settled(before, score));
            assert forall|i: int| #![trigger next[i]] 0 <= i < next.len()
                implies !window_after(first, next.take(i)).accepts(next[i]) by {
                if i < tried.len() {
                    assert(next.take(i) =~= tried.take(i));
                } else {
                    assert(next.take(i) =~= tried);
                }
            }
            tried = next;
        }
    }
}

/// A value limited to the range of an evaluation.
fn clamp(v: i32) -> (r: i16)
    ensures r == saturate(v as int),
{
    if v < -32768 { i16::MIN } else if v > 32767 { i16::MAX } else { v as i16 }
}

} // verus!
