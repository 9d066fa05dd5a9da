//! Searching for the best move.

use vstd::prelude::*;

pub mod move_ordering;
pub mod principal_variation;
pub mod tables;
pub mod transposition;
pub mod aspiration;
pub mod clock;
pub mod stop_flag;
pub mod time_control;
pub mod state;
pub mod move_provider;
pub mod negamax;
pub mod quiescence;

pub mod iterative_deepening;

pub use state::{PersistentState, SearchState};
pub use time_control::{Clocks, TimeControl, TimeStrategy};

use crate::chess::game::Game;
use crate::chess::perft::no_moves;
use crate::chess::moves::Move;
use crate::chess::piece::PieceKind;
use crate::engine::options::EngineOptions;
use crate::engine::search::move_provider::{MoveProvider, yields};
use crate::engine::search::principal_variation::PrincipalVariation;
use crate::engine::search::negamax::{one_ply_value, quiet_one_ply, lemma_one_ply_same, lemma_quiet_one_ply};
use crate::engine::search::quiescence::reply_value;
use crate::engine::transposition_table::lookup_in;
use crate::chess::movegen::gen::legal_move;
use crate::chess::game::same_state;

verus! {

/// The deepest ply the search reaches.
pub const MAX_SEARCH_DEPTH: u8 = 255;

/// The history scores are divided by this at the start of each search.
pub const HISTORY_DECAY_FACTOR: i32 = 8;

/// The score of a search as reported.
#[derive(Debug, Clone, Copy, PartialEq, Eq, Structural)]
pub enum SearchScore {
    Centipawns(i16),
    /// Moves to mate: positive when the player to move mates.
    Mate(i16),
}

/// Limits on a search besides time.
#[derive(Debug, Clone, Copy)]
pub struct SearchRestrictions {
    pub depth: Option<u8>,
}

impl SearchRestrictions {
    /// No limit.
    pub fn new() -> (r: Self)
        ensures r.depth is None,
    {
        SearchRestrictions { depth: None }
    }
}

/// Counts of a search so far.
#[derive(Debug, Clone, Copy)]
pub struct SearchStats {
    /// Milliseconds since the search started.
    pub time: u64,
    pub nodes: u64,
    pub nodes_per_second: u64,
    pub tbhits: u64,
}

/// What a search reports after each depth.
pub struct SearchInfo {
    pub depth: u8,
    pub seldepth: u8,
    pub score: SearchScore,
    pub stats: SearchStats,
    pub pv: PrincipalVariation,
    /// How full the transposition table is, in thousandths.
    pub hashfull: usize,
}

/// Where a search reports its progress and its result.
pub trait Reporter {
    fn generic_report(&self, s: &str);

    fn report_search_progress(&mut self, game: &Game, progress: SearchInfo);

    fn best_move(&self, game: &Game, mv: Move);
}

/// A reporter that reports nowhere.
pub struct NullReporter;

impl Reporter for NullReporter {
    fn generic_report(&self, s: &str) {
    }

    fn report_search_progress(&mut self, game: &Game, progress: SearchInfo) {
    }

    fn best_move(&self, game: &Game, mv: Move) {
    }
}

/// A reporter that keeps the last score and node count.
pub struct CapturingReporter {
    pub score: Option<SearchScore>,
    pub nodes: u64,
}

impl CapturingReporter {
    pub fn new() -> (r: Self)
        ensures r.score is None, r.nodes == 0,
    {
        CapturingReporter { score: None, nodes: 0 }
    }
}

impl Reporter for CapturingReporter {
    fn generic_report(&self, s: &str) {
    }

    fn report_search_progress(&mut self, game: &Game, progress: SearchInfo)
        ensures
            final(self).score == Some(progress.score),
            final(self).nodes == progress.stats.nodes,
    {
        self.score = Some(progress.score);
        self.nodes = progress.stats.nodes;
    }

    fn best_move(&self, game: &Game, mv: Move) {
    }
}

/// The move to play when the search found none in time: the first move
/// the move ordering hands out.
fn panic_move(game: &Game, persistent_state: &PersistentState, state: &SearchState) -> (r: Option<Move>)
    requires
        game.wf(),
        game.board.set_of(game.player, PieceKind::King).len() == 1,
        persistent_state.wf(),
        state.wf(),
    ensures
        r matches Some(m) ==> yields(*game, m),
        r is None ==> no_moves(*game),
{
    let mut move_provider = MoveProvider::new(None);
    move_provider.next(game, persistent_state, state, 0)
}

/// Whether a move is among the legal moves of the position.
fn is_legal(game: &Game, mv: Move) -> (r: bool)
    requires
        game.wf(),
        game.board.set_of(game.player, PieceKind::King).len() == 1,
    ensures
        r ==> yields(*game, mv),
        r == legal_move(*game, true, mv),
{
    let moves = game.moves();
    let mut i: usize = 0;
    while i < moves.len()
        invariant
            i <= moves@.len(),
            forall|m: Move| #[trigger] moves@.contains(m) <==> legal_move(*game, true, m),
            forall|j: int| 0 <= j < i ==> moves@[j] != mv,
        decreases moves@.len() - i,
    {
        if moves[i] == mv {
            proof { assert(moves@.contains(moves@[i as int])); }
            return true;
        }
        i = i + 1;
    }
    proof {
        if legal_move(*game, true, mv) {
            assert(moves@.contains(mv));
        }
    }
    false
}

/// Searches the position for the best move within the time strategy. The
/// move found is a legal move of the position; there is none only when the
/// position has no legal move or no single king to move.
pub fn search<R: Reporter>(
    game: &Game,
    persistent_state: &mut PersistentState,
    time_strategy: &mut TimeStrategy,
    search_restrictions: &SearchRestrictions,
    options: &EngineOptions,
    reporter: &mut R,
) -> (r: Option<Move>)
    requires
        game.wf(),
        old(persistent_state).wf(),
        old(time_strategy).wf(),
    ensures
        final(persistent_state).wf(),
        final(time_strategy).wf(),
        r matches Some(m) ==> yields(*game, m),
        // A move is found whenever the player to move has one king and a
        // legal move.
        r is None ==> game.board.set_of(game.player, PieceKind::King).len() != 1 || no_moves(*game),
        // Limited to one ply, where no move goes deeper and nothing is stored
        // for the position, with no limit of time and no stop requested: the
        // move is a legal move with the best reply (when that lies strictly
        // inside the range of an evaluation).
        search_restrictions.depth == Some(1u8) && quiet_one_ply(*game)
            && lookup_in(old(persistent_state).tt.slots(), game.zobrist) is None
            && i16::MIN < one_ply_value(*game) < i16::MAX
            && (exists|m: Move| #[trigger] legal_move(*game, true, m) && game.board.at(m.src_spec()) is Some)
            && old(time_strategy).time_control is Infinite && !final(time_strategy).stop_seen
            ==> (r matches Some(m) && legal_move(*game, true, m) && reply_value(*game, m, 1) == one_ply_value(*game)),
{
    let mut state = SearchState::new();
    persistent_state.tt.new_generation();
    persistent_state.history_table.decay(HISTORY_DECAY_FACTOR);

    proof {
        if quiet_one_ply(*game) {
            lemma_quiet_one_ply(*game, Move(0));
        }
    }
    if game.board.king(game.player).count() != 1 {
        return None;
    }

    let mut pv = PrincipalVariation::new();
    // Give the search its own copy of the game so we don't get one returned in a dirty state
    // when the search aborts.
    let mut copy = game.duplicate();
    proof {
        assert forall|i: int| 0 <= i < copy.history@.len() implies (#[trigger] copy.history@[i]).wf() by {
            assert(copy.history@[i] == game.history@[i]);
        }
    }
    proof {
        assert(same_state(copy, *game));
        lemma_one_ply_same(copy, *game);
        if exists|m: Move| #[trigger] legal_move(*game, true, m) && game.board.at(m.src_spec()) is Some {
            let w = choose|m: Move| #[trigger] legal_move(*game, true, m) && game.board.at(m.src_spec()) is Some;
            assert(legal_move(copy, true, w));
        }
    }
    let _ = iterative_deepening::search(&mut copy, persistent_state, &mut state, time_strategy,
        search_restrictions, &mut pv, reporter);
    if let Some(mv) = pv.first() {
        if is_legal(game, mv) {
            return Some(mv);
        }
    }
    panic_move(game, persistent_state, &state)
}

} // verus!
