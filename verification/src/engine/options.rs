//! The options of the engine that the user can set.

use vstd::prelude::*;

verus! {

/// The size of the transposition table, in megabytes, unless set.
pub const DEFAULT_HASH_SIZE: usize = 256;
/// The number of search threads, unless set.
pub const DEFAULT_THREADS: usize = 1;
/// The milliseconds kept back per move, unless set.
pub const DEFAULT_MOVE_OVERHEAD: usize = 0;

/// The options of the engine.
#[derive(Debug, Clone)]
pub struct EngineOptions {
    /// The size of the transposition table, in megabytes.
    pub hash_size: usize,
    pub threads: usize,
    /// Time kept back for the overhead of making a move (e.g. sending it
    /// over the network), in milliseconds.
    pub move_overhead: usize,
    /// Where the endgame tablebases are, if set.
    pub syzygy_path: Option<String>,
}

impl Default for EngineOptions {
    fn default() -> (r: Self)
        ensures
            r.hash_size == DEFAULT_HASH_SIZE,
            r.threads == DEFAULT_THREADS,
            r.move_overhead == DEFAULT_MOVE_OVERHEAD,
            r.syzygy_path is None,
    {
        EngineOptions {
            hash_size: DEFAULT_HASH_SIZE,
            threads: DEFAULT_THREADS,
            move_overhead: DEFAULT_MOVE_OVERHEAD,
            syzygy_path: None,
        }
    }
}

} // verus!
