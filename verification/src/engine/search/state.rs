//! The state a search keeps: across searches, the transposition table and
//! the history scores; within one search, the killer moves and counters.

use vstd::prelude::*;
use crate::engine::search::tables::{HistoryTable, KillersTable, KILLER_PLIES};
use crate::chess::player::Player;
use crate::engine::search::transposition::SearchTranspositionTableData;
use crate::engine::transposition_table::TranspositionTable;

verus! {

/// The transposition table of the search.
pub type SearchTranspositionTable = TranspositionTable<SearchTranspositionTableData>;

/// What is kept from one search to the next.
pub struct PersistentState {
    pub tt: SearchTranspositionTable,
    pub history_table: HistoryTable,
}

impl PersistentState {
    pub open spec fn wf(self) -> bool {
        self.tt.wf() && self.history_table.wf()
    }

    /// A state with a table of `tt_size_mb` megabytes and no history.
    pub fn new(tt_size_mb: usize) -> (r: Self)
        requires tt_size_mb * 1048576 <= usize::MAX,
        ensures
            r.wf(),
            forall|i: int| 0 <= i < r.tt.slots().len() ==> r.tt.slots()[i] is None,
            r.tt.current_generation() == 0,
            forall|p: Player, s: int, d: int| 0 <= s < 64 && 0 <= d < 64 ==> #[trigger] r.history_table.score(p, s, d) == 0,
    {
        PersistentState { tt: TranspositionTable::new(tt_size_mb), history_table: HistoryTable::new() }
    }

    /// Forgets everything learned.
    pub fn reset(&mut self)
        requires old(self).wf(),
        ensures
            final(self).wf(),
            final(self).tt.slots().len() == old(self).tt.slots().len(),
            forall|i: int| 0 <= i < final(self).tt.slots().len() ==> final(self).tt.slots()[i] is None,
            forall|p: Player, s: int, d: int| 0 <= s < 64 && 0 <= d < 64 ==> #[trigger] final(self).history_table.score(p, s, d) == 0,
    {
        self.tt.reset();
        self.history_table.reset();
    }
}

/// What one search keeps as it runs.
pub struct SearchState {
    pub killer_moves: KillersTable,
    pub nodes_visited: u64,
    pub max_depth_reached: u8,
    pub tbhits: u64,
}

impl SearchState {
    pub open spec fn wf(self) -> bool {
        self.killer_moves.wf()
    }

    /// The state at the start of a search.
    pub fn new() -> (r: Self)
        ensures
            r.wf(),
            r.nodes_visited == 0,
            r.max_depth_reached == 0,
            r.tbhits == 0,
            forall|p: int| 0 <= p < KILLER_PLIES ==> r.killer_moves.killer_0(p) is None && r.killer_moves.killer_1(p) is None,
    {
        SearchState { killer_moves: KillersTable::new(), nodes_visited: 0, max_depth_reached: 0, tbhits: 0 }
    }
}

} // verus!
