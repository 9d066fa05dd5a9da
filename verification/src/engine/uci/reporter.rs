//! Reporting a search over UCI: the `info` and `bestmove` lines, or, for a
//! person at a terminal, a readable form that the front end draws.

use vstd::prelude::*;
use crate::chess::game::Game;
use crate::chess::moves::{Move, promotion_of_flags};
use crate::engine::search::{Reporter, SearchInfo, SearchScore};
use crate::engine::uci::responses::{InfoFields, InfoScore, UciResponse};
use crate::engine::uci::uci_move::UciMove;

verus! {

/// Where the engine's lines go, and how progress is drawn for a person.
pub trait UciOutput {
    /// Sends a line of the protocol.
    fn send_line(&self, line: &str);

    /// Draws the progress of a search for a person.
    fn show_progress(&self, game: &Game, progress: &SearchInfo);

    /// Draws the best move for a person.
    fn show_best_move(&self, game: &Game, mv: Move);
}

/// Whether `u` names the move `m`.
pub open spec fn names(u: UciMove, m: Move) -> bool {
    u.src@ == m.src_spec() && u.dst@ == m.dst_spec() && u.promotion == promotion_of_flags(m.flags_spec())
}

/// The score of an `info` line for the score of a search.
pub open spec fn info_score(s: SearchScore) -> InfoScore {
    match s {
        SearchScore::Centipawns(cp) => InfoScore::Centipawns(cp),
        SearchScore::Mate(m) => InfoScore::Mate(m),
    }
}

/// The `info` line of the progress of a search: depth, selective depth,
/// score, principal variation, time, nodes, speed and table use.
pub fn progress_response(progress: &SearchInfo) -> (r: UciResponse)
    ensures
        r matches UciResponse::Info(f) && {
            &&& f.depth == Some(progress.depth as u64)
            &&& f.seldepth == Some(progress.seldepth as u64)
            &&& f.score == Some(info_score(progress.score))
            &&& f.pv matches Some(pv) && pv@.len() == progress.pv@.len()
                && forall|i: int| 0 <= i < pv@.len() ==> names(#[trigger] pv@[i], progress.pv@[i])
            &&& f.time == Some(progress.stats.time)
            &&& f.nodes == Some(progress.stats.nodes)
            &&& f.nps == Some(progress.stats.nodes_per_second)
            &&& f.hashfull == Some(progress.hashfull as u64)
            &&& f.currmove is None
        },
{
    let moves = progress.pv.as_slice();
    let mut pv: Vec<UciMove> = Vec::new();
    let mut i: usize = 0;
    while i < moves.len()
        invariant
            i <= moves@.len(),
            moves@ == progress.pv@,
            pv@.len() == i,
            forall|j: int| 0 <= j < i ==> names(#[trigger] pv@[j], moves@[j]),
        decreases moves@.len() - i,
    {
        pv.push(UciMove::from_move(moves[i]));
        i = i + 1;
    }
    let score = match progress.score {
        SearchScore::Centipawns(cp) => InfoScore::Centipawns(cp),
        SearchScore::Mate(m) => InfoScore::Mate(m),
    };
    let mut f = InfoFields::new();
    f.depth = Some(progress.depth as u64);
    f.seldepth = Some(progress.seldepth as u64);
    f.score = Some(score);
    f.pv = Some(pv);
    f.time = Some(progress.stats.time);
    f.nodes = Some(progress.stats.nodes);
    f.nps = Some(progress.stats.nodes_per_second);
    f.hashfull = Some(progress.hashfull as u64);
    UciResponse::Info(f)
}

/// The `bestmove` line of a move.
pub fn best_move_response(mv: Move) -> (r: UciResponse)
    ensures r matches UciResponse::BestMove { mv: u, ponder } && names(u, mv) && ponder is None,
{
    UciResponse::BestMove { mv: UciMove::from_move(mv), ponder: None }
}

/// Reports a search in UCI lines, or drawn for a person when the output is
/// a terminal.
pub struct UciReporter<O: UciOutput> {
    pub pretty_output: bool,
    pub output: O,
}

impl<O: UciOutput> Reporter for UciReporter<O> {
    fn generic_report(&self, s: &str) {
        self.output.send_line(s);
    }

    fn report_search_progress(&mut self, game: &Game, progress: SearchInfo) {
        if self.pretty_output {
            self.output.show_progress(game, &progress);
        } else {
            let line = progress_response(&progress).as_string();
            self.output.send_line(line.as_str());
        }
    }

    fn best_move(&self, game: &Game, mv: Move) {
        if self.pretty_output {
            self.output.show_best_move(game, mv);
        } else {
            let line = best_move_response(mv).as_string();
            self.output.send_line(line.as_str());
        }
    }
}

} // verus!
