//! What the engine does with each UCI command: the decisions of the
//! protocol, from the engine's state and a command to its next state, the
//! responses to send and the work that the front end then carries out
//! (searching on another thread, resizing tables, printing diagnostics).

use vstd::prelude::*;
use vstd::string::StringSliceAdditionalSpecFns;
use crate::chess::game::{Game, move_made};
use crate::chess::movegen::gen::legal_move;
use crate::chess::moves::{Move, promotion_of_flags};
use crate::chess::piece::{PieceKind, PromotionPieceKind};
use crate::chess::game::{CastleRights, start_piece};
use crate::chess::player::Player;
use crate::engine::options::{EngineOptions, DEFAULT_HASH_SIZE, DEFAULT_MOVE_OVERHEAD, DEFAULT_THREADS};
use crate::engine::search::{SearchRestrictions};
use crate::engine::search::time_control::{Clocks, TimeControl};
use crate::engine::uci::commands::{moves_view, DebugCommand, GoCmdArguments, MoveView, Position, UciCommand};
use crate::engine::uci::options::{
    parse_usize_spec, HashOption, MoveOverheadOption, ThreadsOption, UciOptionType,
};
use crate::engine::uci::responses::{IdParam, UciResponse};
use crate::engine::uci::uci_move::UciMove;
use crate::text::{push_str, text_equals};

verus! {

/// Whether `mv` is a legal move of `game` that has the squares and the
/// promotion that `named` gives, and whose source square holds a piece.
pub open spec fn plays_named(game: Game, named: MoveView, mv: Move) -> bool {
    &&& legal_move(game, true, mv)
    &&& mv.src_spec() == named.0
    &&& mv.dst_spec() == named.1
    &&& promotion_of_flags(mv.flags_spec()) == named.2
    &&& game.board.at(mv.src_spec()) is Some
}

/// Whether the player to move has exactly one king, so that its legal
/// moves are defined.
pub open spec fn one_king(game: Game) -> bool {
    game.board.set_of(game.player, PieceKind::King).len() == 1
}

/// Whether `games` are the positions met while playing `played`, each move
/// being the one that the entry of `named` at its index names.
#[verifier::opaque]
pub open spec fn line_of_play(games: Seq<Game>, played: Seq<Move>, named: Seq<MoveView>) -> bool {
    &&& games.len() == played.len() + 1
    &&& played.len() <= named.len()
    &&& forall|k: int| 0 <= k < played.len() ==> {
        &&& one_king(#[trigger] games[k])
        &&& plays_named(games[k], named[k], played[k])
        &&& move_made(games[k], played[k], games[k + 1])
    }
}

/// No move played yet: the line is its first position.
pub proof fn lemma_line_start(game: Game, named: Seq<MoveView>)
    ensures line_of_play(seq![game], Seq::empty(), named),
{
    reveal(line_of_play);
}

/// A line of play goes on by one more named move.
pub proof fn lemma_line_extend(games: Seq<Game>, played: Seq<Move>, named: Seq<MoveView>, mv: Move, next: Game)
    requires
        line_of_play(games, played, named),
        played.len() < named.len(),
        one_king(games.last()),
        plays_named(games.last(), named[played.len() as int], mv),
        move_made(games.last(), mv, next),
    ensures
        line_of_play(games.push(next), played.push(mv), named),
{
    reveal(line_of_play);
    let g2 = games.push(next);
    let p2 = played.push(mv);
    assert forall|k: int| 0 <= k < p2.len() implies {
        &&& one_king(#[trigger] g2[k])
        &&& plays_named(g2[k], named[k], p2[k])
        &&& move_made(g2[k], p2[k], g2[k + 1])
    } by {
        if k < played.len() {
            assert(g2[k] == games[k]);
            assert(g2[k + 1] == games[k + 1]);
            assert(p2[k] == played[k]);
        } else {
            assert(g2[k] == games.last());
        }
    }
}

/// Whether two promotions are the same.
fn same_promotion(a: Option<PromotionPieceKind>, b: Option<PromotionPieceKind>) -> (r: bool)
    ensures r == (a == b),
{
    match (a, b) {
        (None, None) => true,
        (Some(x), Some(y)) => x == y,
        _ => false,
    }
}

/// The first of the legal moves `moves` of `game` that `named` names and
/// that starts on a piece.
fn find_named_move(game: &Game, moves: &Vec<Move>, named: UciMove) -> (r: Option<Move>)
    requires forall|m: Move| #[trigger] moves@.contains(m) <==> legal_move(*game, true, m),
    ensures
        match r {
            Some(mv) => plays_named(*game, crate::engine::uci::lexer::move_view(named), mv),
            None => !exists|mv: Move| plays_named(*game, crate::engine::uci::lexer::move_view(named), mv),
        },
{
    let ghost u = crate::engine::uci::lexer::move_view(named);
    let mut i: usize = 0;
    while i < moves.len()
        invariant
            i <= moves@.len(),
            u == crate::engine::uci::lexer::move_view(named),
            forall|m: Move| #[trigger] moves@.contains(m) <==> legal_move(*game, true, m),
            forall|j: int| 0 <= j < i ==> !plays_named(*game, u, #[trigger] moves@[j]),
        decreases moves@.len() - i,
    {
        let m = moves[i];
        let src_ok = m.src().idx() == named.src.idx();
        let dst_ok = m.dst().idx() == named.dst.idx();
        let promotion_ok = same_promotion(m.promotion(), named.promotion);
        let piece_ok = game.board.piece_at(m.src()).is_some();
        if src_ok && dst_ok && promotion_ok && piece_ok {
            proof { assert(moves@.contains(m)); }
            return Some(m);
        }
        proof {
            assert(!plays_named(*game, u, m));
        }
        i = i + 1;
    }
    proof {
        assert forall|mv: Move| !plays_named(*game, u, mv) by {
            if plays_named(*game, u, mv) {
                assert(moves@.contains(mv));
                let j = moves@.index_of(mv);
                assert(moves@[j] == mv);
            }
        }
    }
    None
}

/// The move of `game` that `named` names, if the player to move has exactly
/// one king and there is one.
fn next_move(game: &Game, named: UciMove) -> (r: Option<Move>)
    requires game.wf(),
    ensures
        match r {
            Some(mv) => one_king(*game) && plays_named(*game, crate::engine::uci::lexer::move_view(named), mv),
            None => !(one_king(*game)
                && exists|mv: Move| plays_named(*game, crate::engine::uci::lexer::move_view(named), mv)),
        },
{
    if game.board.king(game.player).count() != 1 {
        return None;
    }
    let legal = game.moves();
    find_named_move(game, &legal, named)
}

/// The error of a move that cannot be played.
fn illegal_move() -> (e: String)
    ensures e@ == "Illegal move"@,
{
    String::from_str("Illegal move")
}

/// Whether playing the moves `named` from `start` ends at `end`: after all
/// of them when `complete`, else at the first one that cannot be played.
pub open spec fn plays_line(start: Game, named: Seq<MoveView>, end: Game, complete: bool) -> bool {
    exists|games: Seq<Game>, played: Seq<Move>| {
        &&& line_of_play(games, played, named)
        &&& games[0] == start
        &&& games.last() == end
        &&& if complete {
            played.len() == named.len()
        } else {
            &&& played.len() < named.len()
            &&& !(one_king(end) && exists|mv: Move| plays_named(end, named[played.len() as int], mv))
        }
    }
}

/// Plays the moves that `moves` name, each being the legal move with its
/// squares and promotion. Stops with an error at the first one that names
/// no legal move, or where the player to move has not exactly one king,
/// leaving the game as it was before that move.
pub fn play_uci_moves(game: &mut Game, moves: &Vec<UciMove>) -> (r: Result<(), String>)
    requires old(game).wf(),
    ensures
        final(game).wf(),
        match r {
            Ok(()) => plays_line(*old(game), moves_view(moves@), *final(game), true),
            Err(e) => e@ == "Illegal move"@ && plays_line(*old(game), moves_view(moves@), *final(game), false),
        },
{
    let ghost named = moves_view(moves@);
    let ghost start = *game;
    let ghost mut games: Seq<Game> = seq![*game];
    let ghost mut played: Seq<Move> = Seq::empty();
    proof { lemma_line_start(*game, named); }
    let mut i: usize = 0;
    while i < moves.len()
        invariant
            i <= moves@.len(),
            named == moves_view(moves@),
            game.wf(),
            line_of_play(games, played, named),
            games.len() == i + 1,
            games[0] == start,
            start == *old(game),
            played.len() == i,
            games.last() == *game,
        decreases moves@.len() - i,
    {
        let mv = match next_move(game, moves[i]) {
            Some(mv) => mv,
            None => {
                proof {
                    assert(named[i as int] == crate::engine::uci::lexer::move_view(moves@[i as int]));

                }
                return Err(illegal_move());
            },
        };
        let ghost before = *game;
        game.make_move(mv);
        proof {
            assert(named[i as int] == crate::engine::uci::lexer::move_view(moves@[i as int]));
            lemma_line_extend(games, played, named, mv, *game);
            games = games.push(*game);
            played = played.push(mv);
        }
        i = i + 1;
    }
    Ok(())
}

/// Where the commands come from: given up front (the engine then waits for
/// each search to finish before the next command), or read from standard
/// input.
pub enum UciInputMode {
    Commands(Vec<String>),
    Stdin,
}

impl UciInputMode {
    /// Whether a search is waited for before the next command is read.
    pub fn blocks_on_threads(&self) -> (r: bool)
        ensures r == (*self is Commands),
    {
        match self {
            UciInputMode::Commands(_) => true,
            UciInputMode::Stdin => false,
        }
    }
}

/// The work the front end carries out after a command, besides sending the
/// responses.
#[derive(Debug, Clone, Copy)]
pub enum UciAction {
    /// Nothing more.
    Continue,
    /// Stop reading commands.
    Exit,
    /// Resize the transposition table to this many megabytes.
    ResizeHash(usize),
    /// Start afresh: a new transposition table of the hash size, and the
    /// signal of a finished search cleared.
    NewGame,
    /// Search the current position on another thread.
    Search { time_control: TimeControl, restrictions: SearchRestrictions },
    /// Stop the running search and wait until it has finished.
    StopSearch,
    /// Print the board and its FEN.
    PrintPosition,
    /// Count and print the positions `depth` moves ahead, with the time taken.
    Perft(u8),
    /// The same, move by move.
    PerftDiv(u8),
    /// Print the parts of the static evaluation.
    Eval,
    /// Search the starting position to a fixed depth and print the node count and speed.
    Bench,
}

/// What a command gives: the responses to send, then the work to do.
pub struct UciStep {
    pub responses: Vec<UciResponse>,
    pub action: UciAction,
}

/// The state of the engine between commands.
pub struct Uci {
    pub game: Game,
    pub options: EngineOptions,
    pub debug: bool,
    /// Whether a search was started and not stopped since.
    pub searching: bool,
    /// The name (and version) announced in `id name`.
    pub name: String,
}

/// The position that the debug command `position kiwipete` sets.
pub const KIWIPETE: &'static str = "r3k2r/p1ppqpb1/bn2pnp1/3PN3/1p2P3/2N2Q1p/PPPBBPPP/R3K2R w KQkq -";

/// Whether `g` is a game in the starting position, as `Game::new` makes it.
pub open spec fn is_start(g: Game) -> bool {
    &&& g.wf()
    &&& g.board.placement() == Seq::new(64, |s: int| start_piece(s))
    &&& g.player == Player::White
    &&& g.castle_rights == [CastleRights::both_spec(), CastleRights::both_spec()]
    &&& g.en_passant_target is None
    &&& g.halfmove_clock == 0
    &&& g.plies == 0
    &&& g.history@.len() == 0
}

/// Whether `g` is the game that the FEN record `text` describes.
#[verifier::opaque]
pub open spec fn game_of_fen(text: Seq<char>, g: Game) -> bool {
    crate::chess::fen::fen_fields(vstd::utf8::encode_utf8(text)) matches Some(f)
        && crate::chess::fen::fen_fields_ok(f) && crate::chess::fen::game_from_fields(g, f)
}

/// Whether `text` is a FEN record of a position that a game can hold.
#[verifier::opaque]
pub open spec fn valid_fen(text: Seq<char>) -> bool {
    crate::chess::fen::fen_fields(vstd::utf8::encode_utf8(text)) matches Some(f)
        && crate::chess::fen::fen_fields_ok(f)
}

/// What `Game::from_fen` promises, in the terms above.
proof fn lemma_from_fen(fen: &str, r: Result<Game, String>)
    requires
        match r {
            Ok(g) => crate::chess::fen::fen_fields(fen.spec_bytes()) matches Some(f)
                && crate::chess::fen::fen_fields_ok(f) && crate::chess::fen::game_from_fields(g, f),
            Err(e) => !(crate::chess::fen::fen_fields(fen.spec_bytes()) matches Some(f) && crate::chess::fen::fen_fields_ok(f))
                && e@ == crate::chess::fen::invalid_fen_text(fen@),
        },
    ensures
        match r {
            Ok(g) => game_of_fen(fen@, g) && g.wf(),
            Err(e) => !valid_fen(fen@) && e@ == crate::chess::fen::invalid_fen_text(fen@),
        },
{
    reveal(game_of_fen);
    reveal(valid_fen);
}

/// Whether `g` is the game that a `position` command starts from.
pub open spec fn starts_at(position: Position, g: Game) -> bool {
    match position {
        Position::StartPos => is_start(g),
        Position::Fen(fen) => game_of_fen(fen@, g),
    }
}

/// The time control of a `go` command: the clocks when both are given,
/// else a fixed time when one is given, else no limit.
pub open spec fn time_control_of(a: GoCmdArguments) -> TimeControl {
    if a.wtime is Some && a.btime is Some {
        TimeControl::Clocks(Clocks {
            white_clock: a.wtime,
            black_clock: a.btime,
            white_increment: a.winc,
            black_increment: a.binc,
            moves_to_go: a.movestogo,
        })
    } else if let Some(t) = a.movetime {
        TimeControl::ExactTime(t)
    } else {
        TimeControl::Infinite
    }
}

/// The time control of a `go` command, by its arguments: with both clocks
/// given, each side's clock and increment are that side's own arguments
/// (`wtime`/`winc` for White, `btime`/`binc` for Black) and the moves to go
/// are `movestogo`; else a given `movetime` is the exact time; else there is
/// no limit.
pub proof fn law_go_time_control(a: GoCmdArguments)
    ensures
        a.wtime is Some && a.btime is Some ==> (time_control_of(a) matches TimeControl::Clocks(c)
            && c.white_clock == a.wtime && c.white_increment == a.winc
            && c.black_clock == a.btime && c.black_increment == a.binc
            && c.moves_to_go == a.movestogo),
        !(a.wtime is Some && a.btime is Some) && a.movetime is Some
            ==> time_control_of(a) == TimeControl::ExactTime(a.movetime->0),
        !(a.wtime is Some && a.btime is Some) && a.movetime is None
            ==> time_control_of(a) == TimeControl::Infinite,
{
}

/// The options after `setoption name <name> value <value>`, and the work it
/// asks for; or the error.
pub open spec fn option_outcome(o: EngineOptions, name: Seq<char>, value: Seq<char>) -> Result<(EngineOptions, UciAction), Seq<char>> {
    let unable = "Unable to set "@ + name + ": \"Invalid value\""@;
    if name == "Hash"@ {
        match parse_usize_spec(value) {
            Some(n) => Ok((EngineOptions { hash_size: n as usize, ..o }, UciAction::ResizeHash(n as usize))),
            None => Err(unable),
        }
    } else if name == "Threads"@ {
        match parse_usize_spec(value) {
            Some(n) => Ok((EngineOptions { threads: n as usize, ..o }, UciAction::Continue)),
            None => Err(unable),
        }
    } else if name == "Move Overhead"@ {
        match parse_usize_spec(value) {
            Some(n) => Ok((EngineOptions { move_overhead: n as usize, ..o }, UciAction::Continue)),
            None => Err(unable),
        }
    } else {
        Err("Unknown option: "@ + name)
    }
}

/// The answer to `uci`: the engine's name and author, its options, and `uciok`.
pub open spec fn uci_greeting(rs: Seq<UciResponse>, name: Seq<char>) -> bool {
    &&& rs.len() == 6
    &&& rs[0] matches UciResponse::Id(IdParam::Name(n)) && n@ == name
    &&& rs[1] matches UciResponse::Id(IdParam::Author(a)) && a@ == "Jonathan Gilchrist"@
    &&& rs[2] matches UciResponse::Option { name: n, option_type: t } && n@ == "Hash"@
        && t == (UciOptionType::Spin { default: DEFAULT_HASH_SIZE, min: 0, max: 1024 })
    &&& rs[3] matches UciResponse::Option { name: n, option_type: t } && n@ == "Threads"@
        && t == (UciOptionType::Spin { default: DEFAULT_THREADS, min: 1, max: 1 })
    &&& rs[4] matches UciResponse::Option { name: n, option_type: t } && n@ == "Move Overhead"@
        && t == (UciOptionType::Spin { default: DEFAULT_MOVE_OVERHEAD, min: 0, max: 1000 })
    &&& rs[5] matches UciResponse::UciOk
}

/// A step with no response.
fn quiet_step(action: UciAction) -> (r: UciStep)
    ensures r.responses@.len() == 0, r.action == action,
{
    UciStep { responses: Vec::new(), action }
}

/// The error that a failed option setting is reported with.
fn unable_to_set(name: &str) -> (e: String)
    ensures e@ == "Unable to set "@ + name@ + ": \"Invalid value\""@,
{
    let mut e = String::from_str("Unable to set ");
    push_str(&mut e, name);
    push_str(&mut e, ": \"Invalid value\"");
    e
}

/// The error of an option the engine does not have.
fn unknown_option(name: &str) -> (e: String)
    ensures e@ == "Unknown option: "@ + name@,
{
    let mut e = String::from_str("Unknown option: ");
    push_str(&mut e, name);
    e
}

/// The time control of a `go` command.
fn time_control_exec(a: &GoCmdArguments) -> (r: TimeControl)
    ensures
        r == time_control_of(*a),
        a.wtime is Some && a.btime is Some ==> (r matches TimeControl::Clocks(c)
            && c.white_clock == a.wtime && c.white_increment == a.winc
            && c.black_clock == a.btime && c.black_increment == a.binc),
{
    if a.wtime.is_some() && a.btime.is_some() {
        TimeControl::Clocks(Clocks {
            white_clock: a.wtime,
            black_clock: a.btime,
            white_increment: a.winc,
            black_increment: a.binc,
            moves_to_go: a.movestogo,
        })
    } else if let Some(t) = a.movetime {
        TimeControl::ExactTime(t)
    } else {
        TimeControl::Infinite
    }
}

/// What a `position` command did: the game it set, or the error and no change.
pub open spec fn position_done(before: Uci, after: Uci, position: Position, moves: Seq<UciMove>, r: Result<UciStep, String>) -> bool {
    match r {
        Ok(step) => step.responses@.len() == 0 && step.action == UciAction::Continue
            && (exists|start: Game| starts_at(position, start)
                && plays_line(start, moves_view(moves), after.game, true))
            && after == (Uci { game: after.game, ..before }),
        Err(e) => after == before && match position {
            Position::Fen(fen) => (!valid_fen(fen@) && e@ == crate::chess::fen::invalid_fen_text(fen@))
                || (e@ == "Illegal move"@ && exists|start: Game, end: Game| starts_at(position, start)
                    && plays_line(start, moves_view(moves), end, false)),
            Position::StartPos => e@ == "Illegal move"@ && exists|start: Game, end: Game|
                starts_at(position, start) && plays_line(start, moves_view(moves), end, false),
        },
    }
}

impl Uci {
    /// The engine as it starts: the starting position, the default options,
    /// debugging off and no search running.
    pub fn new(name: &str) -> (r: Self)
        ensures
            is_start(r.game),
            r.options.hash_size == DEFAULT_HASH_SIZE,
            r.options.threads == DEFAULT_THREADS,
            r.options.move_overhead == DEFAULT_MOVE_OVERHEAD,
            r.options.syzygy_path is None,
            !r.debug,
            !r.searching,
            r.name@ == name@,
    {
        Uci {
            game: Game::new(),
            options: EngineOptions::default(),
            debug: false,
            searching: false,
            name: String::from_str(name),
        }
    }

    /// Sets an option by name.
    fn set_option(&mut self, name: &str, value: &str) -> (r: Result<UciStep, String>)
        ensures
            match option_outcome(old(self).options, name@, value@) {
                Ok((o, a)) => r matches Ok(step) && step.responses@.len() == 0 && step.action == a
                    && *final(self) == (Uci { options: o, ..*old(self) }),
                Err(msg) => r matches Err(e) && e@ == msg && *final(self) == *old(self),
            },
    {
        if text_equals(name, "Hash") {
            match HashOption::set(&mut self.options, value) {
                Ok(n) => Ok(quiet_step(UciAction::ResizeHash(n))),
                Err(_) => Err(unable_to_set(name)),
            }
        } else if text_equals(name, "Threads") {
            match ThreadsOption::set(&mut self.options, value) {
                Ok(()) => Ok(quiet_step(UciAction::Continue)),
                Err(_) => Err(unable_to_set(name)),
            }
        } else if text_equals(name, "Move Overhead") {
            match MoveOverheadOption::set(&mut self.options, value) {
                Ok(()) => Ok(quiet_step(UciAction::Continue)),
                Err(_) => Err(unable_to_set(name)),
            }
        } else {
            Err(unknown_option(name))
        }
    }

    /// Sets the game from a `position` command.
    fn set_position(&mut self, position: &Position, moves: &Vec<UciMove>) -> (r: Result<UciStep, String>)
        requires old(self).game.wf(),
        ensures
            final(self).game.wf(),
            position_done(*old(self), *final(self), *position, moves@, r),
    {
        let mut game = match position {
            Position::StartPos => Game::new(),
            Position::Fen(fen) => {
                let text = fen.as_str();
                match Game::from_fen(text) {
                    Ok(g) => {
                        proof { lemma_from_fen(text, Ok(g)); }
                        g
                    },
                    Err(e) => {
                        proof { lemma_from_fen(text, Err(e)); }
                        return Err(e);
                    },
                }
            },
        };
        let ghost start = game;
        proof { assert(starts_at(*position, start)); }
        match play_uci_moves(&mut game, moves) {
            Ok(()) => {
                self.game = game;
                let step = quiet_step(UciAction::Continue);
                proof {
                    assert(starts_at(*position, start) && plays_line(start, moves_view(moves@), self.game, true));
                }
                Ok(step)
            },
            Err(e) => {
                proof {
                    assert(starts_at(*position, start) && plays_line(start, moves_view(moves@), game, false));
                }
                Err(e)
            },
        }
    }

    /// Carries out a command: updates the engine's state and returns the
    /// responses to send and the work left to the front end, or the error
    /// that the command is refused with, leaving the state unchanged (but
    /// for `d move`, whose moves up to the one that fails stay played).
    pub fn execute(&mut self, cmd: &UciCommand) -> (r: Result<UciStep, String>)
        requires old(self).game.wf(),
        ensures
            final(self).game.wf(),
            match *cmd {
                UciCommand::Uci => r matches Ok(step) && uci_greeting(step.responses@, old(self).name@)
                    && step.action == UciAction::Continue
                    && is_start(final(self).game) && *final(self) == (Uci { game: final(self).game, ..*old(self) }),
                UciCommand::Debug(on) => r matches Ok(step) && step.responses@.len() == 0
                    && step.action == UciAction::Continue && *final(self) == (Uci { debug: on, ..*old(self) }),
                UciCommand::IsReady => r matches Ok(step) && step.responses@ == seq![UciResponse::ReadyOk]
                    && step.action == UciAction::Continue && *final(self) == *old(self),
                UciCommand::SetOption { name, value } => match option_outcome(old(self).options, name@, value@) {
                    Ok((o, a)) => r matches Ok(step) && step.responses@.len() == 0 && step.action == a
                        && *final(self) == (Uci { options: o, ..*old(self) }),
                    Err(msg) => r matches Err(e) && e@ == msg && *final(self) == *old(self),
                },
                UciCommand::UciNewGame => r matches Ok(step) && step.responses@.len() == 0
                    && step.action == UciAction::NewGame
                    && is_start(final(self).game) && *final(self) == (Uci { game: final(self).game, ..*old(self) }),
                UciCommand::Position { position, moves } => position_done(*old(self), *final(self), position, moves@, r),
                UciCommand::Go(args) => r matches Ok(step) && step.responses@.len() == 0
                    && step.action == (UciAction::Search {
                        time_control: time_control_of(args),
                        restrictions: SearchRestrictions { depth: args.depth },
                    })
                    && *final(self) == (Uci { searching: true, ..*old(self) })
                    && (args.wtime is Some && args.btime is Some ==> (step.action matches UciAction::Search { time_control: TimeControl::Clocks(c), .. }
                        && c.white_clock == args.wtime && c.white_increment == args.winc
                        && c.black_clock == args.btime && c.black_increment == args.binc)),
                UciCommand::Stop => r matches Ok(step) && step.responses@.len() == 0
                    && step.action == (if old(self).searching { UciAction::StopSearch } else { UciAction::Continue })
                    && *final(self) == (Uci { searching: false, ..*old(self) }),
                UciCommand::D(DebugCommand::PrintPosition) => r matches Ok(step) && step.responses@.len() == 0
                    && step.action == UciAction::PrintPosition && *final(self) == *old(self),
                UciCommand::D(DebugCommand::SetPosition { position }) => if position@ == "kiwipete"@ {
                    match r {
                        Ok(step) => step.responses@.len() == 0 && step.action == UciAction::PrintPosition
                            && game_of_fen(KIWIPETE@, final(self).game)
                            && *final(self) == (Uci { game: final(self).game, ..*old(self) }),
                        Err(e) => !valid_fen(KIWIPETE@) && e@ == crate::chess::fen::invalid_fen_text(KIWIPETE@)
                            && *final(self) == *old(self),
                    }
                } else {
                    r matches Err(e) && e@ == "Unknown debug position"@ && *final(self) == *old(self)
                },
                UciCommand::D(DebugCommand::Move { moves }) => *final(self) == (Uci { game: final(self).game, ..*old(self) })
                    && match r {
                        Ok(step) => step.responses@.len() == 0 && step.action == UciAction::PrintPosition
                            && plays_line(old(self).game, moves_view(moves@), final(self).game, true),
                        Err(e) => e@ == "Illegal move"@
                            && plays_line(old(self).game, moves_view(moves@), final(self).game, false),
                    },
                UciCommand::D(DebugCommand::Perft { depth }) => r matches Ok(step) && step.responses@.len() == 0
                    && step.action == UciAction::Perft(depth) && *final(self) == *old(self),
                UciCommand::D(DebugCommand::PerftDiv { depth }) => r matches Ok(step) && step.responses@.len() == 0
                    && step.action == UciAction::PerftDiv(depth) && *final(self) == *old(self),
                UciCommand::D(DebugCommand::Eval) => r matches Ok(step) && step.responses@.len() == 0
                    && step.action == UciAction::Eval && *final(self) == *old(self),
                UciCommand::PonderHit => r matches Ok(step) && step.responses@.len() == 0
                    && step.action == UciAction::Continue && *final(self) == *old(self),
                UciCommand::Bench => r matches Ok(step) && step.responses@.len() == 0
                    && step.action == UciAction::Bench && *final(self) == *old(self),
                UciCommand::Quit => r matches Ok(step) && step.responses@.len() == 0
                    && step.action == UciAction::Exit && *final(self) == *old(self),
            },
    {
        match cmd {
            UciCommand::Uci => {
                self.game = Game::new();
                let responses = self.greeting();
                Ok(UciStep { responses, action: UciAction::Continue })
            },
            UciCommand::Debug(on) => {
                self.debug = *on;
                Ok(quiet_step(UciAction::Continue))
            },
            UciCommand::IsReady => {
                let mut responses: Vec<UciResponse> = Vec::new();
                responses.push(UciResponse::ReadyOk);
                proof { assert(responses@ =~= seq![UciResponse::ReadyOk]); }
                Ok(UciStep { responses, action: UciAction::Continue })
            },
            UciCommand::SetOption { name, value } => self.set_option(name.as_str(), value.as_str()),
            UciCommand::UciNewGame => {
                self.game = Game::new();
                Ok(quiet_step(UciAction::NewGame))
            },
            UciCommand::Position { position, moves } => self.set_position(position, moves),
            UciCommand::Go(args) => {
                let time_control = time_control_exec(args);
                self.searching = true;
                Ok(quiet_step(UciAction::Search { time_control, restrictions: SearchRestrictions { depth: args.depth } }))
            },
            UciCommand::Stop => {
                let was_searching = self.searching;
                self.searching = false;
                Ok(quiet_step(if was_searching { UciAction::StopSearch } else { UciAction::Continue }))
            },
            UciCommand::D(DebugCommand::PrintPosition) => Ok(quiet_step(UciAction::PrintPosition)),
            UciCommand::D(DebugCommand::SetPosition { position }) => {
                if text_equals(position.as_str(), "kiwipete") {
                    let parsed = Game::from_fen(KIWIPETE);
                    proof { lemma_from_fen(KIWIPETE, parsed); }
                    match parsed {
                        Ok(g) => {
                            self.game = g;
                            Ok(quiet_step(UciAction::PrintPosition))
                        },
                        Err(e) => Err(e),
                    }
                } else {
                    Err(String::from_str("Unknown debug position"))
                }
            },
            UciCommand::D(DebugCommand::Move { moves }) => {
                match play_uci_moves(&mut self.game, moves) {
                    Ok(()) => Ok(quiet_step(UciAction::PrintPosition)),
                    Err(e) => Err(e),
                }
            },
            UciCommand::D(DebugCommand::Perft { depth }) => Ok(quiet_step(UciAction::Perft(*depth))),
            UciCommand::D(DebugCommand::PerftDiv { depth }) => Ok(quiet_step(UciAction::PerftDiv(*depth))),
            UciCommand::D(DebugCommand::Eval) => Ok(quiet_step(UciAction::Eval)),
            UciCommand::PonderHit => Ok(quiet_step(UciAction::Continue)),
            UciCommand::Bench => Ok(quiet_step(UciAction::Bench)),
            UciCommand::Quit => Ok(quiet_step(UciAction::Exit)),
        }
    }

    /// The answer to `uci`.
    fn greeting(&self) -> (r: Vec<UciResponse>)
        ensures uci_greeting(r@, self.name@),
    {
        let mut r: Vec<UciResponse> = Vec::new();
        r.push(UciResponse::Id(IdParam::Name(String::from_str(self.name.as_str()))));
        r.push(UciResponse::Id(IdParam::Author(String::from_str("Jonathan Gilchrist"))));
        r.push(UciResponse::option(HashOption::name(), HashOption::def()));
        r.push(UciResponse::option(ThreadsOption::name(), ThreadsOption::def()));
        r.push(UciResponse::option(MoveOverheadOption::name(), MoveOverheadOption::def()));
        r.push(UciResponse::UciOk);
        r
    }
}

} // verus!
