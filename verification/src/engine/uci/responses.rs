//! The responses the engine sends over UCI, and their text.

use vstd::prelude::*;
use crate::engine::uci::options::UciOptionType;
use crate::engine::uci::uci_move::{UciMove, uci_notation};
use crate::text::{decimal, push_i64, push_str, push_u64, signed_decimal};

verus! {

/// The score of an `info` line.
#[derive(Debug, Clone, Copy, PartialEq, Eq)]
pub enum InfoScore {
    Centipawns(i16),
    /// Moves to mate; negative when the engine is mated.
    Mate(i16),
}

/// What an `id` line names.
#[derive(Debug, Clone)]
pub enum IdParam {
    Name(String),
    Author(String),
}

/// The fields of an `info` line; those that are `None` are left out.
#[derive(Debug, Clone)]
pub struct InfoFields {
    pub depth: Option<u64>,
    pub seldepth: Option<u64>,
    /// Milliseconds searched.
    pub time: Option<u64>,
    pub nodes: Option<u64>,
    pub pv: Option<Vec<UciMove>>,
    pub score: Option<InfoScore>,
    pub currmove: Option<UciMove>,
    /// Thousandths of the transposition table in use.
    pub hashfull: Option<u64>,
    pub nps: Option<u64>,
}

impl InfoFields {
    /// Fields that are all left out.
    pub fn new() -> (r: Self)
        ensures
            r.depth is None && r.seldepth is None && r.time is None && r.nodes is None
                && r.pv is None && r.score is None && r.currmove is None
                && r.hashfull is None && r.nps is None,
    {
        InfoFields {
            depth: None,
            seldepth: None,
            time: None,
            nodes: None,
            pv: None,
            score: None,
            currmove: None,
            hashfull: None,
            nps: None,
        }
    }
}

/// A response of the engine.
#[derive(Debug, Clone)]
pub enum UciResponse {
    Id(IdParam),
    UciOk,
    ReadyOk,
    BestMove { mv: UciMove, ponder: Option<UciMove> },
    Info(InfoFields),
    Option { name: String, option_type: UciOptionType },
}

/// ` <label> <n>` when there is a number, else nothing.
pub open spec fn count_part(label: Seq<char>, n: Option<u64>) -> Seq<char> {
    match n {
        Some(v) => label + decimal(v as nat),
        None => Seq::empty(),
    }
}

/// The score part of an `info` line.
pub open spec fn score_part(score: Option<InfoScore>) -> Seq<char> {
    match score {
        Some(InfoScore::Centipawns(cp)) => " score cp "@ + signed_decimal(cp as int),
        Some(InfoScore::Mate(m)) => " score mate "@ + signed_decimal(m as int),
        None => Seq::empty(),
    }
}

/// The text of an `info` line: its fields in the order depth, seldepth,
/// time, nodes, nps, currmove and score.
pub open spec fn info_text(f: InfoFields) -> Seq<char> {
    "info"@
        + count_part(" depth "@, f.depth)
        + count_part(" seldepth "@, f.seldepth)
        + count_part(" time "@, f.time)
        + count_part(" nodes "@, f.nodes)
        + count_part(" nps "@, f.nps)
        + match f.currmove {
            Some(m) => " currmove "@ + uci_notation(m),
            None => Seq::empty(),
        }
        + score_part(f.score)
}

/// The ` var <value>` entries of a combo option.
pub open spec fn vars_text(values: Seq<&'static str>) -> Seq<char>
    decreases values.len(),
{
    if values.len() == 0 {
        Seq::empty()
    } else {
        vars_text(values.drop_last()) + " var "@ + values.last()@
    }
}

/// The type, default and bounds of an option, as announced.
pub open spec fn option_type_text(t: UciOptionType) -> Seq<char> {
    match t {
        UciOptionType::Check { default } => "check default "@ + (if default { "true"@ } else { "false"@ }),
        UciOptionType::Spin { default, min, max } => "spin default "@ + decimal(default as nat)
            + " min "@ + decimal(min as nat) + " max "@ + decimal(max as nat),
        UciOptionType::Combo { default, values } => "combo default "@ + default@ + vars_text(values@),
        UciOptionType::String { default } => "string default "@ + default@,
        UciOptionType::Button => "button"@,
    }
}

/// The line that a response is sent as.
pub open spec fn response_text(r: UciResponse) -> Seq<char> {
    match r {
        UciResponse::Id(IdParam::Name(name)) => "id name "@ + name@,
        UciResponse::Id(IdParam::Author(author)) => "id author "@ + author@,
        UciResponse::UciOk => "uciok"@,
        UciResponse::ReadyOk => "readyok"@,
        UciResponse::BestMove { mv, ponder } => "bestmove "@ + uci_notation(mv),
        UciResponse::Info(f) => info_text(f),
        UciResponse::Option { name, option_type } => "option name "@ + name@ + " type "@
            + option_type_text(option_type),
    }
}

/// Appends ` <label> <n>` when there is a number.
fn push_count(s: &mut String, label: &str, n: Option<u64>)
    ensures final(s)@ == old(s)@ + count_part(label@, n),
{
    match n {
        Some(v) => {
            push_str(s, label);
            push_u64(s, v);
            proof { assert(final(s)@ =~= old(s)@ + (label@ + decimal(v as nat))); }
        },
        None => {
            proof { assert(old(s)@ + Seq::<char>::empty() =~= old(s)@); }
        },
    }
}

/// The text of an `info` line.
fn info_string(f: &InfoFields) -> (r: String)
    ensures r@ == info_text(*f),
{
    let mut r = String::from_str("info");
    push_count(&mut r, " depth ", f.depth);
    push_count(&mut r, " seldepth ", f.seldepth);
    push_count(&mut r, " time ", f.time);
    push_count(&mut r, " nodes ", f.nodes);
    push_count(&mut r, " nps ", f.nps);
    let ghost before_move = r@;
    match f.currmove {
        Some(m) => {
            push_str(&mut r, " currmove ");
            push_str(&mut r, m.notation().as_str());
            proof { assert(r@ =~= before_move + (" currmove "@ + uci_notation(m))); }
        },
        None => {
            proof { assert(r@ =~= before_move + Seq::<char>::empty()); }
        },
    }
    let ghost before_score = r@;
    match f.score {
        Some(InfoScore::Centipawns(cp)) => {
            push_str(&mut r, " score cp ");
            push_i64(&mut r, cp as i64);
            proof { assert(r@ =~= before_score + (" score cp "@ + signed_decimal(cp as int))); }
        },
        Some(InfoScore::Mate(m)) => {
            push_str(&mut r, " score mate ");
            push_i64(&mut r, m as i64);
            proof { assert(r@ =~= before_score + (" score mate "@ + signed_decimal(m as int))); }
        },
        None => {
            proof { assert(r@ =~= before_score + Seq::<char>::empty()); }
        },
    }
    r
}

/// The type, default and bounds of an option.
fn option_type_string(t: &UciOptionType) -> (r: String)
    ensures r@ == option_type_text(*t),
{
    match t {
        UciOptionType::Check { default } => {
            let mut r = String::from_str("check default ");
            push_str(&mut r, if *default { "true" } else { "false" });
            r
        },
        UciOptionType::Spin { default, min, max } => {
            let mut r = String::from_str("spin default ");
            push_u64(&mut r, *default as u64);
            push_str(&mut r, " min ");
            push_u64(&mut r, *min as u64);
            push_str(&mut r, " max ");
            push_u64(&mut r, *max as u64);
            r
        },
        UciOptionType::Combo { default, values } => {
            let mut r = String::from_str("combo default ");
            push_str(&mut r, default);
            let ghost head = r@;
            let mut k: usize = 0;
            proof { assert(values@.subrange(0, 0) =~= Seq::<&'static str>::empty()); }
            while k < values.len()
                invariant
                    k <= values@.len(),
                    r@ == head + vars_text(values@.subrange(0, k as int)),
                decreases values@.len() - k,
            {
                let ghost before = r@;
                push_str(&mut r, " var ");
                push_str(&mut r, values[k]);
                proof {
                    let next = values@.subrange(0, k + 1);
                    assert(next.drop_last() =~= values@.subrange(0, k as int));
                    assert(r@ =~= head + vars_text(next));
                }
                k = k + 1;
            }
            proof { assert(values@.subrange(0, values@.len() as int) =~= values@); }
            r
        },
        UciOptionType::String { default } => {
            let mut r = String::from_str("string default ");
            push_str(&mut r, default);
            r
        },
        UciOptionType::Button => String::from_str("button"),
    }
}

impl UciResponse {
    /// The `option` line announcing an option.
    pub fn option(name: &str, option_type: UciOptionType) -> (r: Self)
        ensures r matches UciResponse::Option { name: n, option_type: t } && n@ == name@ && t == option_type,
    {
        UciResponse::Option { name: name.to_string(), option_type }
    }

    /// The line this response is sent as.
    pub fn as_string(&self) -> (r: String)
        ensures r@ == response_text(*self),
    {
        match self {
            UciResponse::Id(IdParam::Name(name)) => {
                let mut r = String::from_str("id name ");
                push_str(&mut r, name.as_str());
                r
            },
            UciResponse::Id(IdParam::Author(author)) => {
                let mut r = String::from_str("id author ");
                push_str(&mut r, author.as_str());
                r
            },
            UciResponse::UciOk => String::from_str("uciok"),
            UciResponse::ReadyOk => String::from_str("readyok"),
            UciResponse::BestMove { mv, ponder } => {
                let mut r = String::from_str("bestmove ");
                push_str(&mut r, mv.notation().as_str());
                r
            },
            UciResponse::Info(f) => info_string(f),
            UciResponse::Option { name, option_type } => {
                let mut r = String::from_str("option name ");
                push_str(&mut r, name.as_str());
                push_str(&mut r, " type ");
                let ghost head = r@;
                push_str(&mut r, option_type_string(option_type).as_str());
                proof { assert(r@ =~= head + option_type_text(*option_type)); }
                r
            },
        }
    }
}

} // verus!
