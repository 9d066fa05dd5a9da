//! When to stop searching: the budget of a search, the clock and the flag
//! that another thread raises to stop it.
//!
//! The budget itself is worked out by the caller from the clocks; here the
//! decisions are taken from it.

use vstd::prelude::*;
use std::sync::Arc;
use std::sync::atomic::AtomicBool;
use std::time::Instant;
use crate::chess::moves::Move;
use crate::engine::search::clock::{now, millis_since};
use crate::engine::search::stop_flag::{new_flag, share_flag, flag_is_raised, raise_flag};

verus! {

/// The number of nodes between two looks at the clock.
pub const CHECK_TERMINATION_NODE_FREQUENCY: u64 = 10000;

/// The depth from which the stability of the best move changes the time used.
pub const BEST_MOVE_STABILITY_INITIAL_DEPTH: u8 = 6;

/// The times left and added per move, in milliseconds.
#[derive(Debug, Clone, Copy)]
pub struct Clocks {
    pub white_clock: Option<u64>,
    pub black_clock: Option<u64>,
    pub white_increment: Option<u64>,
    pub black_increment: Option<u64>,
    pub moves_to_go: Option<u32>,
}

/// How long a search may run.
#[derive(Debug, Clone, Copy)]
pub enum TimeControl {
    /// Within the clocks of a game.
    Clocks(Clocks),
    /// For this many milliseconds.
    ExactTime(u64),
    /// Until told to stop.
    Infinite,
}

/// A handle that stops the search it was made with.
pub struct Control {
    force_stop: Arc<AtomicBool>,
}

impl Control {
    /// Asks the search to stop.
    pub fn stop(&self) {
        raise_flag(&self.force_stop);
    }
}

/// The state that decides when a search stops.
pub struct TimeStrategy {
    pub time_control: TimeControl,
    pub started_at: Instant,
    /// The time after which no new depth is started, in milliseconds.
    pub soft_stop: u64,
    /// The same for each stability of the best move, once that counts.
    pub stable_soft_stops: [u64; 5],
    /// The time after which the search is aborted, in milliseconds.
    pub hard_stop: u64,
    pub last_best_move: Option<Move>,
    /// For how many depths in a row the best move stayed the same, up to 4.
    pub best_move_stability: usize,
    /// The node count at which to look at the clock next.
    pub next_check_at: u64,
    pub force_stop: Arc<AtomicBool>,
    /// Whether a stop request was seen; once seen, it stays.
    pub stop_seen: bool,
}

impl TimeStrategy {
    /// The strategy counts a stability it can look up.
    pub open spec fn wf(self) -> bool {
        self.best_move_stability <= 4
    }

    /// A strategy with the given budget, starting now, and the handle that
    /// stops it.
    pub fn with_budget(time_control: TimeControl, soft_stop: u64, stable_soft_stops: [u64; 5], hard_stop: u64) -> (r: (Self, Control))
        ensures
            r.0.wf(),
            r.0.time_control == time_control,
            r.0.soft_stop == soft_stop,
            r.0.stable_soft_stops == stable_soft_stops,
            r.0.hard_stop == hard_stop,
            r.0.last_best_move is None,
            r.0.best_move_stability == 0,
            r.0.next_check_at == CHECK_TERMINATION_NODE_FREQUENCY,
            !r.0.stop_seen,
    {
        let force_stop = new_flag();
        let control = Control { force_stop: share_flag(&force_stop) };
        let strategy = TimeStrategy {
            time_control,
            started_at: now(),
            soft_stop,
            stable_soft_stops,
            hard_stop,
            last_best_move: None,
            best_move_stability: 0,
            next_check_at: CHECK_TERMINATION_NODE_FREQUENCY,
            force_stop,
            stop_seen: false,
        };
        (strategy, control)
    }

    /// The milliseconds elapsed since the search started.
    pub fn elapsed(&self) -> u64 {
        millis_since(&self.started_at)
    }

    fn is_force_stopped(&self) -> bool {
        flag_is_raised(&self.force_stop)
    }

    /// The soft stop for a depth, in milliseconds.
    pub open spec fn soft_stop_spec(self, depth: u8) -> u64 {
        if depth > BEST_MOVE_STABILITY_INITIAL_DEPTH {
            self.stable_soft_stops[self.best_move_stability as int]
        } else {
            self.soft_stop
        }
    }

    /// Whether to search another depth, given whether the stop flag is
    /// raised and the milliseconds elapsed: always the first depth; none
    /// once stopped; with clocks, while below the soft stop; with an exact
    /// time, while below it; without limit, always.
    pub open spec fn start_decision_spec(self, depth: u8, forced: bool, elapsed: u64) -> bool {
        depth == 1 || (!forced && match self.time_control {
            TimeControl::Clocks(_) => elapsed < self.soft_stop_spec(depth),
            TimeControl::ExactTime(t) => elapsed < t,
            TimeControl::Infinite => true,
        })
    }

    /// Whether to abort, given whether the stop flag is raised and the
    /// milliseconds elapsed: when stopped; with clocks, past the hard stop;
    /// with an exact time, past it; without limit, never.
    pub open spec fn stop_decision_spec(self, forced: bool, elapsed: u64) -> bool {
        forced || match self.time_control {
            TimeControl::Clocks(_) => elapsed > self.hard_stop,
            TimeControl::ExactTime(t) => elapsed > t,
            TimeControl::Infinite => false,
        }
    }

    /// The decision of `should_start_new_search`, from the two readings.
    pub fn start_decision(&self, depth: u8, forced: bool, elapsed: u64) -> (r: bool)
        requires self.wf(),
        ensures r == self.start_decision_spec(depth, forced, elapsed),
    {
        if depth == 1 {
            return true;
        }
        if forced {
            return false;
        }
        match self.time_control {
            TimeControl::Clocks(_) => elapsed < self.soft_stop_for(depth),
            TimeControl::ExactTime(time) => elapsed < time,
            TimeControl::Infinite => true,
        }
    }

    /// The decision of `should_stop` once the node count reached the next
    /// look at the clock, from the two readings. A stop request answers yes
    /// at once and is remembered; otherwise the next look is planned so many
    /// nodes later and the clock decides.
    pub fn stop_decision(&mut self, nodes_visited: u64, forced: bool, elapsed: u64) -> (r: bool)
        ensures
            r == old(self).stop_decision_spec(forced, elapsed),
            final(self).next_check_at == (if forced { old(self).next_check_at as int }
                else if nodes_visited + CHECK_TERMINATION_NODE_FREQUENCY > u64::MAX { u64::MAX as int }
                else { nodes_visited + CHECK_TERMINATION_NODE_FREQUENCY }),
            final(self).stop_seen == (old(self).stop_seen || forced),
            *final(self) == (TimeStrategy { next_check_at: final(self).next_check_at, stop_seen: final(self).stop_seen, ..*old(self) }),
    {
        if forced {
            self.stop_seen = true;
            return true;
        }
        self.next_check_at = nodes_visited.saturating_add(CHECK_TERMINATION_NODE_FREQUENCY);
        match self.time_control {
            TimeControl::Clocks(_) => elapsed > self.hard_stop,
            TimeControl::ExactTime(time) => elapsed > time,
            TimeControl::Infinite => false,
        }
    }

    /// Whether a stop was requested, looked at now; a request seen is
    /// remembered.
    pub fn stop_requested(&mut self) -> (r: bool)
        ensures
            final(self).stop_seen == (old(self).stop_seen || r),
            *final(self) == (TimeStrategy { stop_seen: final(self).stop_seen, ..*old(self) }),
    {
        let r = self.is_force_stopped();
        if r {
            self.stop_seen = true;
        }
        r
    }

    /// The soft stop for a depth: scaled by the stability of the best move
    /// beyond the initial depth.
    pub fn soft_stop_for(&self, depth: u8) -> (r: u64)
        requires self.wf(),
        ensures r == self.soft_stop_spec(depth),
    {
        if depth > BEST_MOVE_STABILITY_INITIAL_DEPTH {
            self.stable_soft_stops[self.best_move_stability]
        } else {
            self.soft_stop
        }
    }

    /// Whether to search another depth: the decision of
    /// `start_decision_spec` on the stop flag and the clock as read now.
    pub fn should_start_new_search(&self, depth: u8) -> (r: bool)
        requires self.wf(),
        ensures
            depth == 1 ==> r,
            exists|forced: bool, elapsed: u64| r == #[trigger] self.start_decision_spec(depth, forced, elapsed),
    {
        if depth == 1 {
            proof { assert(self.start_decision_spec(depth, false, 0)); }
            return true;
        }
        let forced = self.is_force_stopped();
        let elapsed = self.elapsed();
        self.start_decision(depth, forced, elapsed)
    }

    /// Whether to abort the search after `nodes_visited` nodes. The clock
    /// and the flag are looked at only every so many nodes; before that the
    /// answer is no; then it is the decision of `stop_decision` on the flag
    /// and the clock as read now.
    pub fn should_stop(&mut self, nodes_visited: u64) -> (r: bool)
        ensures
            nodes_visited < old(self).next_check_at ==> !r && *final(self) == *old(self),
            nodes_visited >= old(self).next_check_at ==> exists|forced: bool, elapsed: u64| {
                &&& r == #[trigger] old(self).stop_decision_spec(forced, elapsed)
                &&& final(self).stop_seen == (old(self).stop_seen || forced)
                &&& final(self).next_check_at == (if forced { old(self).next_check_at as int }
                    else if nodes_visited + CHECK_TERMINATION_NODE_FREQUENCY > u64::MAX { u64::MAX as int }
                    else { nodes_visited + CHECK_TERMINATION_NODE_FREQUENCY })
            },
            *final(self) == (TimeStrategy { next_check_at: final(self).next_check_at, stop_seen: final(self).stop_seen, ..*old(self) }),
            final(self).best_move_stability == old(self).best_move_stability,
            final(self).stable_soft_stops == old(self).stable_soft_stops,
            final(self).next_check_at >= old(self).next_check_at,
            final(self).time_control == old(self).time_control,
            old(self).stop_seen ==> final(self).stop_seen,
            r ==> nodes_visited >= old(self).next_check_at,
            r && !final(self).stop_seen ==> !(final(self).time_control is Infinite),
    {
        if nodes_visited < self.next_check_at {
            return false;
        }
        let forced = self.is_force_stopped();
        let elapsed = self.elapsed();
        self.stop_decision(nodes_visited, forced, elapsed)
    }

    /// Records the best move found at a depth: from the initial depth on,
    /// the stability grows (up to 4) while the best move stays the same
    /// and drops to zero when it changes.
    pub fn update(&mut self, best_move: Move, depth: u8)
        requires old(self).wf(),
        ensures
            final(self).wf(),
            final(self).last_best_move == Some(best_move),
            depth >= BEST_MOVE_STABILITY_INITIAL_DEPTH ==> final(self).best_move_stability == (
                if old(self).last_best_move == Some(best_move) {
                    if old(self).best_move_stability + 1 > 4 { 4 } else { old(self).best_move_stability + 1 }
                } else {
                    0
                }),
            depth < BEST_MOVE_STABILITY_INITIAL_DEPTH ==> final(self).best_move_stability == old(self).best_move_stability,
            final(self).next_check_at == old(self).next_check_at,
            final(self).stop_seen == old(self).stop_seen,
            final(self).time_control == old(self).time_control,
    {
        if depth >= BEST_MOVE_STABILITY_INITIAL_DEPTH {
            let same = match self.last_best_move {
                Some(m) => m == best_move,
                None => false,
            };
            self.best_move_stability = if same {
                if self.best_move_stability + 1 > 4 { 4 } else { self.best_move_stability + 1 }
            } else {
                0
            };
        }
        self.last_best_move = Some(best_move);
    }
}

} // verus!
