//! The engine: evaluation, search and the UCI protocol.

pub mod eval;
pub mod options;
pub mod search;
pub mod strategy;
pub mod transposition_table;
pub mod uci;
