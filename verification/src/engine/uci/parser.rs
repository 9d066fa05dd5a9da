//! Reading a line of the protocol into a command.
//!
//! The grammar is stated by spec functions over the characters of the line;
//! each reader below returns what its spec function gives, and `parse`
//! returns a command exactly when the whole line is one.

use vstd::prelude::*;
use crate::engine::uci::commands::{
    CommandView, DebugCommand, DebugView, GoCmdArguments, Position, PositionView, UciCommand,
};
use crate::engine::uci::lexer::{
    blanks_end, blanks_end_exec, find_from, find_spec, has_tag, int_at, int_at_exec,
    letters_end, letters_end_exec, moves_at, moves_at_exec, substring, tag_at, uint_at,
    uint_at_exec,
};
use crate::engine::uci::uci_move::UciMove;
use crate::engine::uci::commands::moves_view;
use crate::engine::uci::lexer::move_view;
use crate::text::{chars_of, push_str};

verus! {

/// Where the blanks after the word `w` at `i` end, if at least one blank follows it.
pub open spec fn after_word(s: Seq<char>, i: int, w: Seq<char>) -> Option<int> {
    if has_tag(s, i, w) && blanks_end(s, i + w.len()) > i + w.len() {
        Some(blanks_end(s, i + w.len()))
    } else {
        None
    }
}

/// A count of milliseconds as the protocol writes it: negative times count as none.
pub open spec fn millis(n: int) -> u64 {
    if n < 0 { 0 } else { n as u64 }
}

/// One argument of a `go` command.
#[derive(Debug, PartialEq, Eq, Clone, Copy)]
pub enum GoArg {
    Ponder,
    WTime(u64),
    BTime(u64),
    WInc(u64),
    BInc(u64),
    MovesToGo(u32),
    Depth(u8),
    Nodes(u32),
    MoveTime(u64),
    Infinite,
}

/// The word `w`, blanks and a signed number of milliseconds, at `i`.
pub open spec fn time_arg(s: Seq<char>, i: int, w: Seq<char>) -> Option<(u64, int)> {
    match after_word(s, i, w) {
        Some(j) => match int_at(s, j) {
            Some((v, e)) => Some((millis(v), e)),
            None => None,
        },
        None => None,
    }
}

/// The word `w`, blanks and an unsigned number of at most `max`, at `i`.
pub open spec fn count_arg(s: Seq<char>, i: int, w: Seq<char>, max: int) -> Option<(int, int)> {
    match after_word(s, i, w) {
        Some(j) => uint_at(s, j, max),
        None => None,
    }
}

/// The argument of a `go` command at `i`, and where it ends.
pub open spec fn go_arg_at(s: Seq<char>, i: int) -> Option<(GoArg, int)> {
    if has_tag(s, i, seq!['p', 'o', 'n', 'd', 'e', 'r']) {
        Some((GoArg::Ponder, i + 6))
    } else if let Some((v, e)) = time_arg(s, i, seq!['w', 't', 'i', 'm', 'e']) {
        Some((GoArg::WTime(v), e))
    } else if let Some((v, e)) = time_arg(s, i, seq!['b', 't', 'i', 'm', 'e']) {
        Some((GoArg::BTime(v), e))
    } else if let Some((v, e)) = time_arg(s, i, seq!['w', 'i', 'n', 'c']) {
        Some((GoArg::WInc(v), e))
    } else if let Some((v, e)) = time_arg(s, i, seq!['b', 'i', 'n', 'c']) {
        Some((GoArg::BInc(v), e))
    } else if let Some((v, e)) = count_arg(s, i, seq!['m', 'o', 'v', 'e', 's', 't', 'o', 'g', 'o'], u32::MAX as int) {
        Some((GoArg::MovesToGo(v as u32), e))
    } else if let Some((v, e)) = count_arg(s, i, seq!['d', 'e', 'p', 't', 'h'], u8::MAX as int) {
        Some((GoArg::Depth(v as u8), e))
    } else if let Some((v, e)) = count_arg(s, i, seq!['n', 'o', 'd', 'e', 's'], u32::MAX as int) {
        Some((GoArg::Nodes(v as u32), e))
    } else if let Some((v, e)) = time_arg(s, i, seq!['m', 'o', 'v', 'e', 't', 'i', 'm', 'e']) {
        Some((GoArg::MoveTime(v), e))
    } else if has_tag(s, i, seq!['i', 'n', 'f', 'i', 'n', 'i', 't', 'e']) {
        Some((GoArg::Infinite, i + 8))
    } else {
        None
    }
}

/// The clock arguments of `go` are read by their names: `wtime`, `btime`,
/// `winc` and `binc` followed by a number give White's time, Black's time,
/// White's increment and Black's increment; and reading one sets that
/// field of the arguments and no other clock field.
pub proof fn law_go_clock_words(s: Seq<char>, i: int, a: GoCmdArguments, t: u64)
    ensures
        time_arg(s, i, seq!['w', 't', 'i', 'm', 'e']) matches Some((v, e)) ==> go_arg_at(s, i) == Some((GoArg::WTime(v), e)),
        time_arg(s, i, seq!['b', 't', 'i', 'm', 'e']) matches Some((v, e)) ==> go_arg_at(s, i) == Some((GoArg::BTime(v), e)),
        time_arg(s, i, seq!['w', 'i', 'n', 'c']) matches Some((v, e)) ==> go_arg_at(s, i) == Some((GoArg::WInc(v), e)),
        time_arg(s, i, seq!['b', 'i', 'n', 'c']) matches Some((v, e)) ==> go_arg_at(s, i) == Some((GoArg::BInc(v), e)),
        ({ let r = with_go_arg(a, GoArg::WTime(t));
            r.wtime == Some(t) && r.btime == a.btime && r.winc == a.winc && r.binc == a.binc }),
        ({ let r = with_go_arg(a, GoArg::BTime(t));
            r.btime == Some(t) && r.wtime == a.wtime && r.winc == a.winc && r.binc == a.binc }),
        ({ let r = with_go_arg(a, GoArg::WInc(t));
            r.winc == Some(t) && r.wtime == a.wtime && r.btime == a.btime && r.binc == a.binc }),
        ({ let r = with_go_arg(a, GoArg::BInc(t));
            r.binc == Some(t) && r.wtime == a.wtime && r.btime == a.btime && r.winc == a.winc }),
{
}

/// The arguments of a `go` command with no argument given.
pub open spec fn no_go_args() -> GoCmdArguments {
    GoCmdArguments {
        ponder: false,
        wtime: None,
        btime: None,
        winc: None,
        binc: None,
        movestogo: None,
        depth: None,
        nodes: None,
        movetime: None,
        infinite: false,
    }
}

/// The arguments after one more argument is read.
pub open spec fn with_go_arg(a: GoCmdArguments, g: GoArg) -> GoCmdArguments {
    match g {
        GoArg::Ponder => GoCmdArguments { ponder: true, ..a },
        GoArg::WTime(t) => GoCmdArguments { wtime: Some(t), ..a },
        GoArg::BTime(t) => GoCmdArguments { btime: Some(t), ..a },
        GoArg::WInc(t) => GoCmdArguments { winc: Some(t), ..a },
        GoArg::BInc(t) => GoCmdArguments { binc: Some(t), ..a },
        GoArg::MovesToGo(n) => GoCmdArguments { movestogo: Some(n), ..a },
        GoArg::Depth(d) => GoCmdArguments { depth: Some(d), ..a },
        GoArg::Nodes(n) => GoCmdArguments { nodes: Some(n), ..a },
        GoArg::MoveTime(t) => GoCmdArguments { movetime: Some(t), ..a },
        GoArg::Infinite => GoCmdArguments { infinite: true, ..a },
    }
}

/// The `go` arguments read from `i` on, each after blanks, over `acc`;
/// and where the last one ends.
pub open spec fn go_args_from(s: Seq<char>, i: int, acc: GoCmdArguments) -> (GoCmdArguments, int)
    decreases s.len() - i,
{
    let j = blanks_end(s, i);
    if j > i {
        match go_arg_at(s, j) {
            Some((g, e)) => if i < e <= s.len() {
                go_args_from(s, e, with_go_arg(acc, g))
            } else {
                (acc, i)
            },
            None => (acc, i),
        }
    } else {
        (acc, i)
    }
}

/// `debug on` or `debug off` at `i`.
pub open spec fn debug_at(s: Seq<char>, i: int) -> Option<(CommandView, int)> {
    match after_word(s, i, seq!['d', 'e', 'b', 'u', 'g']) {
        Some(j) => if has_tag(s, j, seq!['o', 'n']) {
            Some((CommandView::Debug(true), j + 2))
        } else if has_tag(s, j, seq!['o', 'f', 'f']) {
            Some((CommandView::Debug(false), j + 3))
        } else {
            None
        },
        None => None,
    }
}

/// `setoption name <name> value <value>` at `i`: the name runs up to the
/// first ` value`, and the value is the rest of the line.
pub open spec fn setoption_at(s: Seq<char>, i: int) -> Option<(CommandView, int)> {
    match after_word(s, i, seq!['s', 'e', 't', 'o', 'p', 't', 'i', 'o', 'n']) {
        Some(j) => match after_word(s, j, seq!['n', 'a', 'm', 'e']) {
            Some(k) => match find_spec(s, k, seq![' ', 'v', 'a', 'l', 'u', 'e']) {
                Some(n) => {
                    let m = blanks_end(s, n);
                    match after_word(s, m, seq!['v', 'a', 'l', 'u', 'e']) {
                        Some(v) => Some((
                            CommandView::SetOption(s.subrange(k, n), s.subrange(v, s.len() as int)),
                            s.len() as int,
                        )),
                        None => None,
                    }
                },
                None => None,
            },
            None => None,
        },
        None => None,
    }
}

/// The position of a `position` command at `i`: `startpos`, or `fen` and the
/// text up to the first ` moves` or to the end of the line.
pub open spec fn position_arg_at(s: Seq<char>, i: int) -> Option<(PositionView, int)> {
    if has_tag(s, i, seq!['s', 't', 'a', 'r', 't', 'p', 'o', 's']) {
        Some((PositionView::StartPos, i + 8))
    } else {
        match after_word(s, i, seq!['f', 'e', 'n']) {
            Some(j) => match find_spec(s, j, seq![' ', 'm', 'o', 'v', 'e', 's']) {
                Some(k) => Some((PositionView::Fen(s.subrange(j, k)), k)),
                None => Some((PositionView::Fen(s.subrange(j, s.len() as int)), s.len() as int)),
            },
            None => None,
        }
    }
}

/// `position <position> [moves <moves>]` at `i`.
pub open spec fn position_at(s: Seq<char>, i: int) -> Option<(CommandView, int)> {
    match after_word(s, i, seq!['p', 'o', 's', 'i', 't', 'i', 'o', 'n']) {
        Some(j) => match position_arg_at(s, j) {
            Some((p, e)) => {
                let k = blanks_end(s, e);
                match after_word(s, k, seq!['m', 'o', 'v', 'e', 's']) {
                    Some(m) => match moves_at(s, m) {
                        Some((ms, end)) => Some((CommandView::Position(p, ms), end)),
                        None => Some((CommandView::Position(p, Seq::empty()), k)),
                    },
                    None => Some((CommandView::Position(p, Seq::empty()), k)),
                }
            },
            None => None,
        },
        None => None,
    }
}

/// What follows `d` and optional blanks: a debug command at `i`.
pub open spec fn debug_command_at(s: Seq<char>, i: int) -> Option<(DebugView, int)> {
    if has_tag(s, i, seq!['f', 'e', 'n']) {
        Some((DebugView::PrintPosition, i + 3))
    } else if after_word(s, i, seq!['p', 'o', 's', 'i', 't', 'i', 'o', 'n']) is Some
        && letters_end(s, after_word(s, i, seq!['p', 'o', 's', 'i', 't', 'i', 'o', 'n'])->0)
            > after_word(s, i, seq!['p', 'o', 's', 'i', 't', 'i', 'o', 'n'])->0 {
        let j = after_word(s, i, seq!['p', 'o', 's', 'i', 't', 'i', 'o', 'n'])->0;
        Some((DebugView::SetPosition(s.subrange(j, letters_end(s, j))), letters_end(s, j)))
    } else if after_word(s, i, seq!['m', 'o', 'v', 'e']) is Some
        && moves_at(s, after_word(s, i, seq!['m', 'o', 'v', 'e'])->0) is Some {
        let (ms, e) = moves_at(s, after_word(s, i, seq!['m', 'o', 'v', 'e'])->0)->0;
        Some((DebugView::Move(ms), e))
    } else if let Some((d, e)) = count_arg(s, i, seq!['p', 'e', 'r', 'f', 't'], u8::MAX as int) {
        Some((DebugView::Perft(d as u8), e))
    } else if let Some((d, e)) = count_arg(s, i, seq!['p', 'e', 'r', 'f', 't', 'd', 'i', 'v'], u8::MAX as int) {
        Some((DebugView::PerftDiv(d as u8), e))
    } else if has_tag(s, i, seq!['e', 'v', 'a', 'l']) {
        Some((DebugView::Eval, i + 4))
    } else {
        None
    }
}

/// The commands that set the engine up, at `i`: `uci`, `debug`, `isready`,
/// `setoption`, `ucinewgame` and `position`, tried in that order.
pub open spec fn setup_command_at(s: Seq<char>, i: int) -> Option<(CommandView, int)> {
    if has_tag(s, i, seq!['u', 'c', 'i']) && i + 3 == s.len() {
        Some((CommandView::Uci, i + 3))
    } else if let Some(r) = debug_at(s, i) {
        Some(r)
    } else if has_tag(s, i, seq!['i', 's', 'r', 'e', 'a', 'd', 'y']) {
        Some((CommandView::IsReady, i + 7))
    } else if let Some(r) = setoption_at(s, i) {
        Some(r)
    } else if has_tag(s, i, seq!['u', 'c', 'i', 'n', 'e', 'w', 'g', 'a', 'm', 'e']) {
        Some((CommandView::UciNewGame, i + 10))
    } else {
        position_at(s, i)
    }
}

/// `d`, optional blanks and a debug command, at `i`.
pub open spec fn d_at(s: Seq<char>, i: int) -> Option<(CommandView, int)> {
    if 0 <= i < s.len() && s[i] == 'd' {
        match debug_command_at(s, blanks_end(s, i + 1)) {
            Some((d, e)) => Some((CommandView::D(d), e)),
            None => None,
        }
    } else {
        None
    }
}

/// The commands that run and inspect it, at `i`: `go`, `stop`, `ponderhit`,
/// `bench`, `d` and `quit`, tried in that order.
pub open spec fn run_command_at(s: Seq<char>, i: int) -> Option<(CommandView, int)> {
    if has_tag(s, i, seq!['g', 'o']) {
        let (a, e) = go_args_from(s, i + 2, no_go_args());
        Some((CommandView::Go(a), e))
    } else if has_tag(s, i, seq!['s', 't', 'o', 'p']) {
        Some((CommandView::Stop, i + 4))
    } else if has_tag(s, i, seq!['p', 'o', 'n', 'd', 'e', 'r', 'h', 'i', 't']) {
        Some((CommandView::PonderHit, i + 9))
    } else if has_tag(s, i, seq!['b', 'e', 'n', 'c', 'h']) {
        Some((CommandView::Bench, i + 5))
    } else if let Some(r) = d_at(s, i) {
        Some(r)
    } else if has_tag(s, i, seq!['q', 'u', 'i', 't']) {
        Some((CommandView::Quit, i + 4))
    } else {
        None
    }
}

/// The command at `i`: the first form of the protocol that reads there.
pub open spec fn command_at(s: Seq<char>, i: int) -> Option<(CommandView, int)> {
    if let Some(r) = setup_command_at(s, i) { Some(r) } else { run_command_at(s, i) }
}

/// The command a line holds: after leading blanks one command, and nothing
/// after it but blanks.
pub open spec fn parse_spec(s: Seq<char>) -> Option<CommandView> {
    match command_at(s, blanks_end(s, 0)) {
        Some((c, e)) => if blanks_end(s, e) == s.len() { Some(c) } else { None },
        None => None,
    }
}


/// What a reader's result reads as: the command's view and where it ends.
pub open spec fn read_view(r: Option<(UciCommand, usize)>) -> Option<(CommandView, int)> {
    match r {
        Some((c, e)) => Some((c.view_spec(), e as int)),
        None => None,
    }
}

/// Where the blanks after the word `w` at `i` end, if at least one blank follows it.
fn after_word_exec(s: &Vec<char>, i: usize, w: &[char]) -> (r: Option<usize>)
    requires i <= s@.len(),
    ensures
        match r {
            Some(j) => after_word(s@, i as int, w@) == Some(j as int) && j <= s@.len(),
            None => after_word(s@, i as int, w@) is None,
        },
{
    if tag_at(s, i, w) {
        let e = i + w.len();
        let j = blanks_end_exec(s, e);
        if j > e { Some(j) } else { None }
    } else {
        None
    }
}

/// A count of milliseconds: negative times count as none.
fn millis_exec(n: i64) -> (r: u64)
    ensures r == millis(n as int),
{
    if n < 0 { 0 } else { n as u64 }
}

/// The word `w`, blanks and a signed number of milliseconds, at `i`.
fn time_arg_exec(s: &Vec<char>, i: usize, w: &[char]) -> (r: Option<(u64, usize)>)
    requires i <= s@.len(),
    ensures
        match r {
            Some((v, e)) => time_arg(s@, i as int, w@) == Some((v, e as int)) && e <= s@.len(),
            None => time_arg(s@, i as int, w@) is None,
        },
{
    let j = match after_word_exec(s, i, w) {
        Some(j) => j,
        None => return None,
    };
    match int_at_exec(s, j) {
        Some((v, e)) => Some((millis_exec(v), e)),
        None => None,
    }
}

/// The word `w`, blanks and an unsigned number of at most `max`, at `i`.
fn count_arg_exec(s: &Vec<char>, i: usize, w: &[char], max: u64) -> (r: Option<(u64, usize)>)
    requires
        i <= s@.len(),
        max >= 9,
    ensures
        match r {
            Some((v, e)) => count_arg(s@, i as int, w@, max as int) == Some((v as int, e as int))
                && e <= s@.len() && v <= max,
            None => count_arg(s@, i as int, w@, max as int) is None,
        },
{
    let j = match after_word_exec(s, i, w) {
        Some(j) => j,
        None => return None,
    };
    uint_at_exec(s, j, max)
}

/// The argument of a `go` command at `i`, and where it ends.
fn go_arg_at_exec(s: &Vec<char>, i: usize) -> (r: Option<(GoArg, usize)>)
    requires i <= s@.len(),
    ensures
        match r {
            Some((g, e)) => go_arg_at(s@, i as int) == Some((g, e as int)) && e <= s@.len(),
            None => go_arg_at(s@, i as int) is None,
        },
{
    if tag_at(s, i, &['p', 'o', 'n', 'd', 'e', 'r']) {
        return Some((GoArg::Ponder, i + 6));
    }
    if let Some((v, e)) = time_arg_exec(s, i, &['w', 't', 'i', 'm', 'e']) {
        return Some((GoArg::WTime(v), e));
    }
    if let Some((v, e)) = time_arg_exec(s, i, &['b', 't', 'i', 'm', 'e']) {
        return Some((GoArg::BTime(v), e));
    }
    if let Some((v, e)) = time_arg_exec(s, i, &['w', 'i', 'n', 'c']) {
        return Some((GoArg::WInc(v), e));
    }
    if let Some((v, e)) = time_arg_exec(s, i, &['b', 'i', 'n', 'c']) {
        return Some((GoArg::BInc(v), e));
    }
    if let Some((v, e)) = count_arg_exec(s, i, &['m', 'o', 'v', 'e', 's', 't', 'o', 'g', 'o'], 0xffff_ffff) {
        return Some((GoArg::MovesToGo(v as u32), e));
    }
    if let Some((v, e)) = count_arg_exec(s, i, &['d', 'e', 'p', 't', 'h'], 255) {
        return Some((GoArg::Depth(v as u8), e));
    }
    if let Some((v, e)) = count_arg_exec(s, i, &['n', 'o', 'd', 'e', 's'], 0xffff_ffff) {
        return Some((GoArg::Nodes(v as u32), e));
    }
    if let Some((v, e)) = time_arg_exec(s, i, &['m', 'o', 'v', 'e', 't', 'i', 'm', 'e']) {
        return Some((GoArg::MoveTime(v), e));
    }
    if tag_at(s, i, &['i', 'n', 'f', 'i', 'n', 'i', 't', 'e']) {
        return Some((GoArg::Infinite, i + 8));
    }
    None
}

/// The arguments of a `go` command with no argument given.
fn no_go_args_exec() -> (r: GoCmdArguments)
    ensures r == no_go_args(),
{
    GoCmdArguments {
        ponder: false,
        wtime: None,
        btime: None,
        winc: None,
        binc: None,
        movestogo: None,
        depth: None,
        nodes: None,
        movetime: None,
        infinite: false,
    }
}

/// The arguments after one more argument is read.
fn with_go_arg_exec(a: GoCmdArguments, g: GoArg) -> (r: GoCmdArguments)
    ensures r == with_go_arg(a, g),
{
    let mut r = a;
    match g {
        GoArg::Ponder => r.ponder = true,
        GoArg::WTime(t) => r.wtime = Some(t),
        GoArg::BTime(t) => r.btime = Some(t),
        GoArg::WInc(t) => r.winc = Some(t),
        GoArg::BInc(t) => r.binc = Some(t),
        GoArg::MovesToGo(n) => r.movestogo = Some(n),
        GoArg::Depth(d) => r.depth = Some(d),
        GoArg::Nodes(n) => r.nodes = Some(n),
        GoArg::MoveTime(t) => r.movetime = Some(t),
        GoArg::Infinite => r.infinite = true,
    }
    r
}

/// The `go` arguments from `i` on, and where the last one ends.
fn go_args_exec(s: &Vec<char>, i: usize) -> (r: (GoCmdArguments, usize))
    requires i <= s@.len(),
    ensures
        go_args_from(s@, i as int, no_go_args()) == (r.0, r.1 as int),
        r.1 <= s@.len(),
{
    let mut acc = no_go_args_exec();
    let mut k = i;
    loop
        invariant
            i <= k <= s@.len(),
            go_args_from(s@, k as int, acc) == go_args_from(s@, i as int, no_go_args()),
        ensures
            go_args_from(s@, i as int, no_go_args()) == (acc, k as int),
            k <= s@.len(),
        decreases s@.len() - k,
    {
        let j = blanks_end_exec(s, k);
        if j == k {
            break;
        }
        match go_arg_at_exec(s, j) {
            Some((g, e)) => {
                if k < e && e <= s.len() {
                    acc = with_go_arg_exec(acc, g);
                    k = e;
                } else {
                    break;
                }
            },
            None => break,
        }
    }
    (acc, k)
}

/// `debug on` or `debug off` at `i`.
fn debug_exec(s: &Vec<char>, i: usize) -> (r: Option<(UciCommand, usize)>)
    requires i <= s@.len(),
    ensures
        read_view(r) == debug_at(s@, i as int),
        r matches Some((_, e)) ==> e <= s@.len(),
{
    let j = match after_word_exec(s, i, &['d', 'e', 'b', 'u', 'g']) {
        Some(j) => j,
        None => return None,
    };
    if tag_at(s, j, &['o', 'n']) {
        Some((UciCommand::Debug(true), j + 2))
    } else if tag_at(s, j, &['o', 'f', 'f']) {
        Some((UciCommand::Debug(false), j + 3))
    } else {
        None
    }
}

/// `setoption name <name> value <value>` at `i`.
fn setoption_exec(s: &Vec<char>, i: usize) -> (r: Option<(UciCommand, usize)>)
    requires i <= s@.len(),
    ensures
        read_view(r) == setoption_at(s@, i as int),
        r matches Some((_, e)) ==> e <= s@.len(),
{
    let j = match after_word_exec(s, i, &['s', 'e', 't', 'o', 'p', 't', 'i', 'o', 'n']) {
        Some(j) => j,
        None => return None,
    };
    let k = match after_word_exec(s, j, &['n', 'a', 'm', 'e']) {
        Some(k) => k,
        None => return None,
    };
    let value_word: &[char] = &[' ', 'v', 'a', 'l', 'u', 'e'];
    assert(value_word@ =~= seq![' ', 'v', 'a', 'l', 'u', 'e']);
    let n = match find_from(s, k, value_word) {
        Some(n) => n,
        None => return None,
    };
    let m = blanks_end_exec(s, n);
    let v = match after_word_exec(s, m, &['v', 'a', 'l', 'u', 'e']) {
        Some(v) => v,
        None => return None,
    };
    let name = substring(s, k, n);
    let value = substring(s, v, s.len());
    Some((UciCommand::SetOption { name, value }, s.len()))
}

/// The position of a `position` command at `i`.
fn position_arg_exec(s: &Vec<char>, i: usize) -> (r: Option<(Position, usize)>)
    requires i <= s@.len(),
    ensures
        match r {
            Some((p, e)) => position_arg_at(s@, i as int) == Some((p.view_spec(), e as int)) && e <= s@.len(),
            None => position_arg_at(s@, i as int) is None,
        },
{
    if tag_at(s, i, &['s', 't', 'a', 'r', 't', 'p', 'o', 's']) {
        return Some((Position::StartPos, i + 8));
    }
    let j = match after_word_exec(s, i, &['f', 'e', 'n']) {
        Some(j) => j,
        None => return None,
    };
    let moves_word: &[char] = &[' ', 'm', 'o', 'v', 'e', 's'];
    assert(moves_word@ =~= seq![' ', 'm', 'o', 'v', 'e', 's']);
    match find_from(s, j, moves_word) {
        Some(k) => Some((Position::Fen(substring(s, j, k)), k)),
        None => Some((Position::Fen(substring(s, j, s.len())), s.len())),
    }
}

/// `position <position> [moves <moves>]` at `i`.
fn position_exec(s: &Vec<char>, i: usize) -> (r: Option<(UciCommand, usize)>)
    requires i <= s@.len(),
    ensures
        read_view(r) == position_at(s@, i as int),
        r matches Some((_, e)) ==> e <= s@.len(),
{
    let j = match after_word_exec(s, i, &['p', 'o', 's', 'i', 't', 'i', 'o', 'n']) {
        Some(j) => j,
        None => return None,
    };
    let (position, e) = match position_arg_exec(s, j) {
        Some(x) => x,
        None => return None,
    };
    let k = blanks_end_exec(s, e);
    if let Some(m) = after_word_exec(s, k, &['m', 'o', 'v', 'e', 's']) {
        if let Some((moves, end)) = moves_at_exec(s, m) {
            proof { assert(moves_view(moves@) =~= moves@.map_values(|x: UciMove| move_view(x))); }
            return Some((UciCommand::Position { position, moves }, end));
        }
    }
    let moves: Vec<UciMove> = Vec::new();
    proof { assert(moves_view(moves@) =~= Seq::empty()); }
    Some((UciCommand::Position { position, moves }, k))
}

/// The debug command at `i`, after `d` and blanks.
fn debug_command_exec(s: &Vec<char>, i: usize) -> (r: Option<(DebugCommand, usize)>)
    requires i <= s@.len(),
    ensures
        match r {
            Some((d, e)) => debug_command_at(s@, i as int) == Some((d.view_spec(), e as int)) && e <= s@.len(),
            None => debug_command_at(s@, i as int) is None,
        },
{
    if tag_at(s, i, &['f', 'e', 'n']) {
        return Some((DebugCommand::PrintPosition, i + 3));
    }
    if let Some(j) = after_word_exec(s, i, &['p', 'o', 's', 'i', 't', 'i', 'o', 'n']) {
        let l = letters_end_exec(s, j);
        if l > j {
            return Some((DebugCommand::SetPosition { position: substring(s, j, l) }, l));
        }
    }
    if let Some(j) = after_word_exec(s, i, &['m', 'o', 'v', 'e']) {
        if let Some((moves, e)) = moves_at_exec(s, j) {
            proof { assert(moves_view(moves@) =~= moves@.map_values(|x: UciMove| move_view(x))); }
            return Some((DebugCommand::Move { moves }, e));
        }
    }
    if let Some((d, e)) = count_arg_exec(s, i, &['p', 'e', 'r', 'f', 't'], 255) {
        return Some((DebugCommand::Perft { depth: d as u8 }, e));
    }
    if let Some((d, e)) = count_arg_exec(s, i, &['p', 'e', 'r', 'f', 't', 'd', 'i', 'v'], 255) {
        return Some((DebugCommand::PerftDiv { depth: d as u8 }, e));
    }
    if tag_at(s, i, &['e', 'v', 'a', 'l']) {
        return Some((DebugCommand::Eval, i + 4));
    }
    None
}

/// The commands that set the engine up, at `i`.
fn setup_command_exec(s: &Vec<char>, i: usize) -> (r: Option<(UciCommand, usize)>)
    requires i <= s@.len(),
    ensures
        read_view(r) == setup_command_at(s@, i as int),
        r matches Some((_, e)) ==> e <= s@.len(),
{
    if tag_at(s, i, &['u', 'c', 'i']) && i + 3 == s.len() {
        return Some((UciCommand::Uci, i + 3));
    }
    if let Some(r) = debug_exec(s, i) {
        return Some(r);
    }
    if tag_at(s, i, &['i', 's', 'r', 'e', 'a', 'd', 'y']) {
        return Some((UciCommand::IsReady, i + 7));
    }
    if let Some(r) = setoption_exec(s, i) {
        return Some(r);
    }
    if tag_at(s, i, &['u', 'c', 'i', 'n', 'e', 'w', 'g', 'a', 'm', 'e']) {
        return Some((UciCommand::UciNewGame, i + 10));
    }
    position_exec(s, i)
}

/// `d`, optional blanks and a debug command, at `i`.
fn d_exec(s: &Vec<char>, i: usize) -> (r: Option<(UciCommand, usize)>)
    requires i <= s@.len(),
    ensures
        read_view(r) == d_at(s@, i as int),
        r matches Some((_, e)) ==> e <= s@.len(),
{
    if i < s.len() && s[i] == 'd' {
        let j = blanks_end_exec(s, i + 1);
        if let Some((d, e)) = debug_command_exec(s, j) {
            return Some((UciCommand::D(d), e));
        }
    }
    None
}

/// The commands that run and inspect the engine, at `i`.
fn run_command_exec(s: &Vec<char>, i: usize) -> (r: Option<(UciCommand, usize)>)
    requires i <= s@.len(),
    ensures
        read_view(r) == run_command_at(s@, i as int),
        r matches Some((_, e)) ==> e <= s@.len(),
{
    if tag_at(s, i, &['g', 'o']) {
        let (a, e) = go_args_exec(s, i + 2);
        return Some((UciCommand::Go(a), e));
    }
    if tag_at(s, i, &['s', 't', 'o', 'p']) {
        return Some((UciCommand::Stop, i + 4));
    }
    if tag_at(s, i, &['p', 'o', 'n', 'd', 'e', 'r', 'h', 'i', 't']) {
        return Some((UciCommand::PonderHit, i + 9));
    }
    if tag_at(s, i, &['b', 'e', 'n', 'c', 'h']) {
        return Some((UciCommand::Bench, i + 5));
    }
    if let Some(r) = d_exec(s, i) {
        return Some(r);
    }
    if tag_at(s, i, &['q', 'u', 'i', 't']) {
        return Some((UciCommand::Quit, i + 4));
    }
    None
}

/// The command at `i`: the first form of the protocol that reads there.
fn command_exec(s: &Vec<char>, i: usize) -> (r: Option<(UciCommand, usize)>)
    requires i <= s@.len(),
    ensures
        read_view(r) == command_at(s@, i as int),
        r matches Some((_, e)) ==> e <= s@.len(),
{
    match setup_command_exec(s, i) {
        Some(r) => Some(r),
        None => run_command_exec(s, i),
    }
}

/// Why a line that holds no command fails to read: where no form of the
/// protocol reads (after the leading blanks), or what follows a command.
pub open spec fn failure_text(s: Seq<char>) -> Seq<char> {
    let i = blanks_end(s, 0);
    match command_at(s, i) {
        Some((c, e)) => "unexpected text after the command: "@ + s.subrange(e, s.len() as int),
        None => "no command reads at: "@ + s.subrange(i, s.len() as int),
    }
}

/// The error for a line that holds no command: the line, and in brackets
/// why it fails to read.
pub open spec fn unknown_command_text(s: Seq<char>) -> Seq<char> {
    "Unknown command: "@ + s + " ("@ + failure_text(s) + ")"@
}

/// Builds the error for a line, given the reason and where reading stopped.
fn unknown_command(input: &str, s: &Vec<char>, reason: &str, at: usize) -> (e: String)
    requires at <= s@.len(),
    ensures e@ == "Unknown command: "@ + input@ + " ("@ + reason@ + s@.subrange(at as int, s@.len() as int) + ")"@,
{
    let mut e = String::from_str("Unknown command: ");
    push_str(&mut e, input);
    push_str(&mut e, " (");
    push_str(&mut e, reason);
    let rest = substring(s, at, s.len());
    push_str(&mut e, rest.as_str());
    push_str(&mut e, ")");
    e
}

/// Reads a line of the protocol. It is a command when, after leading
/// blanks, one form of the protocol reads there and only blanks follow it;
/// otherwise the error names the line and where reading stopped.
pub fn parse(input: &str) -> (r: Result<UciCommand, String>)
    ensures
        match r {
            Ok(c) => parse_spec(input@) == Some(c.view_spec()),
            Err(e) => parse_spec(input@) is None && e@ == unknown_command_text(input@),
        },
{
    let s = chars_of(input);
    let i = blanks_end_exec(&s, 0);
    match command_exec(&s, i) {
        Some((c, e)) => {
            if blanks_end_exec(&s, e) == s.len() {
                Ok(c)
            } else {
                let r = unknown_command(input, &s, "unexpected text after the command: ", e);
                proof {
                    reveal_strlit("unexpected text after the command: ");
                    assert(r@ =~= unknown_command_text(input@));
                }
                Err(r)
            }
        },
        None => {
            let r = unknown_command(input, &s, "no command reads at: ", i);
            proof {
                reveal_strlit("no command reads at: ");
                assert(r@ =~= unknown_command_text(input@));
            }
            Err(r)
        },
    }
}

/// Reads moves separated by blanks from the start of `input`, at least one:
/// the moves and the rest of the input after the last of them.
pub fn uci_moves(input: &str) -> (r: Option<(Vec<UciMove>, String)>)
    ensures
        match r {
            Some((moves, rest)) => moves_at(input@, 0) matches Some((ms, end))
                && moves_view(moves@) == ms && rest@ == input@.subrange(end, input@.len() as int),
            None => moves_at(input@, 0) is None,
        },
{
    let s = chars_of(input);
    match moves_at_exec(&s, 0) {
        Some((moves, end)) => {
            let rest = substring(&s, end, s.len());
            proof { assert(moves_view(moves@) =~= moves@.map_values(|x: UciMove| move_view(x))); }
            Some((moves, rest))
        },
        None => None,
    }
}

} // verus!
