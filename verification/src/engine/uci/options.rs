//! The options the engine offers over UCI, and setting them from the text
//! of a `setoption` command.

use vstd::prelude::*;
use crate::engine::options::{EngineOptions, DEFAULT_HASH_SIZE, DEFAULT_MOVE_OVERHEAD, DEFAULT_THREADS};
use crate::engine::uci::lexer::{uint_at, uint_at_exec};
use crate::text::chars_of;

verus! {

/// The kind of an option and its bounds, as the protocol announces them.
#[derive(Debug, Clone)]
pub enum UciOptionType {
    Check { default: bool },
    Spin { default: usize, min: usize, max: usize },
    Combo { default: &'static str, values: Vec<&'static str> },
    String { default: &'static str },
    Button,
}

/// A whole number as `str::parse::<usize>` reads it: an optional `+`, then
/// one or more decimal digits up to the end, of at most `usize::MAX`.
pub open spec fn parse_usize_spec(s: Seq<char>) -> Option<int> {
    let i: int = if s.len() > 0 && s[0] == '+' { 1 } else { 0 };
    match uint_at(s, i, usize::MAX as int) {
        Some((n, e)) => if e == s.len() { Some(n) } else { None },
        None => None,
    }
}

/// Reads a whole number as `str::parse::<usize>` does.
pub fn parse_usize(value: &str) -> (r: Option<usize>)
    ensures
        match r {
            Some(n) => parse_usize_spec(value@) == Some(n as int),
            None => parse_usize_spec(value@) is None,
        },
{
    let s = chars_of(value);
    let i: usize = if s.len() > 0 && s[0] == '+' { 1 } else { 0 };
    match uint_at_exec(&s, i, usize::MAX as u64) {
        Some((n, e)) => if e == s.len() { Some(n as usize) } else { None },
        None => None,
    }
}

/// The error of a value that is not a whole number.
fn invalid_value() -> (e: String)
    ensures e@ == "Invalid value"@,
{
    String::from_str("Invalid value")
}

/// The size of the transposition table, in megabytes.
pub struct HashOption;

impl HashOption {
    /// The option's name.
    pub fn name() -> (r: &'static str)
        ensures r@ == "Hash"@,
    {
        "Hash"
    }

    /// A spin option from 0 to 1024, by default the default hash size.
    pub fn def() -> (r: UciOptionType)
        ensures r == (UciOptionType::Spin { default: DEFAULT_HASH_SIZE, min: 0, max: 1024 }),
    {
        UciOptionType::Spin { default: DEFAULT_HASH_SIZE, min: 0, max: 1024 }
    }

    /// Sets the hash size from a whole number, and returns it.
    pub fn set(options: &mut EngineOptions, value: &str) -> (r: Result<usize, String>)
        ensures
            match r {
                Ok(n) => parse_usize_spec(value@) == Some(n as int)
                    && *final(options) == (EngineOptions { hash_size: n, ..*old(options) }),
                Err(e) => parse_usize_spec(value@) is None && e@ == "Invalid value"@
                    && *final(options) == *old(options),
            },
    {
        match parse_usize(value) {
            Some(n) => {
                options.hash_size = n;
                Ok(n)
            },
            None => Err(invalid_value()),
        }
    }
}

/// The number of search threads.
pub struct ThreadsOption;

impl ThreadsOption {
    /// The option's name.
    pub fn name() -> (r: &'static str)
        ensures r@ == "Threads"@,
    {
        "Threads"
    }

    /// A spin option fixed at one thread.
    pub fn def() -> (r: UciOptionType)
        ensures r == (UciOptionType::Spin { default: DEFAULT_THREADS, min: 1, max: 1 }),
    {
        UciOptionType::Spin { default: DEFAULT_THREADS, min: 1, max: 1 }
    }

    /// Sets the number of threads from a whole number.
    pub fn set(options: &mut EngineOptions, value: &str) -> (r: Result<(), String>)
        ensures
            match r {
                Ok(()) => parse_usize_spec(value@) matches Some(n)
                    && *final(options) == (EngineOptions { threads: n as usize, ..*old(options) }),
                Err(e) => parse_usize_spec(value@) is None && e@ == "Invalid value"@
                    && *final(options) == *old(options),
            },
    {
        match parse_usize(value) {
            Some(n) => {
                options.threads = n;
                Ok(())
            },
            None => Err(invalid_value()),
        }
    }
}

/// The milliseconds kept back from each move's time for the overhead of
/// making it.
pub struct MoveOverheadOption;

impl MoveOverheadOption {
    /// The option's name.
    pub fn name() -> (r: &'static str)
        ensures r@ == "Move Overhead"@,
    {
        "Move Overhead"
    }

    /// A spin option from 0 to 1000 milliseconds.
    pub fn def() -> (r: UciOptionType)
        ensures r == (UciOptionType::Spin { default: DEFAULT_MOVE_OVERHEAD, min: 0, max: 1000 }),
    {
        UciOptionType::Spin { default: DEFAULT_MOVE_OVERHEAD, min: 0, max: 1000 }
    }

    /// Sets the move overhead from a whole number.
    pub fn set(options: &mut EngineOptions, value: &str) -> (r: Result<(), String>)
        ensures
            match r {
                Ok(()) => parse_usize_spec(value@) matches Some(n)
                    && *final(options) == (EngineOptions { move_overhead: n as usize, ..*old(options) }),
                Err(e) => parse_usize_spec(value@) is None && e@ == "Invalid value"@
                    && *final(options) == *old(options),
            },
    {
        match parse_usize(value) {
            Some(n) => {
                options.move_overhead = n;
                Ok(())
            },
            None => Err(invalid_value()),
        }
    }
}

/// Where the endgame tablebases are.
pub struct SyzygyPath;

impl SyzygyPath {
    /// The option's name.
    pub fn name() -> (r: &'static str)
        ensures r@ == "SyzygyPath"@,
    {
        "SyzygyPath"
    }

    /// A string option, empty by default.
    pub fn def() -> (r: UciOptionType)
        ensures r matches UciOptionType::String { default } && default@ == ""@,
    {
        UciOptionType::String { default: "" }
    }

    /// Sets the tablebase path to the value, and returns it.
    pub fn set(options: &mut EngineOptions, value: &str) -> (r: String)
        ensures
            r@ == value@,
            final(options).syzygy_path matches Some(p) && p@ == value@,
            final(options).hash_size == old(options).hash_size,
            final(options).threads == old(options).threads,
            final(options).move_overhead == old(options).move_overhead,
    {
        let path = value.to_string();
        options.syzygy_path = Some(value.to_string());
        path
    }
}

} // verus!
