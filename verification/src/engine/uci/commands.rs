//! The commands a UCI client sends.

use vstd::prelude::*;
use crate::chess::piece::PromotionPieceKind;
use crate::engine::uci::uci_move::UciMove;
use crate::engine::uci::lexer::move_view;

verus! {

/// The position of a `position` command.
#[derive(Debug, PartialEq, Eq, Clone)]
pub enum Position {
    Fen(String),
    StartPos,
}

/// The arguments of a `go` command; times in milliseconds.
#[derive(Debug, PartialEq, Eq, Clone, Copy, Structural)]
pub struct GoCmdArguments {
    pub ponder: bool,
    pub wtime: Option<u64>,
    pub btime: Option<u64>,
    pub winc: Option<u64>,
    pub binc: Option<u64>,
    pub movestogo: Option<u32>,
    pub depth: Option<u8>,
    pub nodes: Option<u32>,
    pub movetime: Option<u64>,
    pub infinite: bool,
}

/// The commands for inspecting the engine, under `d`.
#[derive(Debug, PartialEq, Eq, Clone)]
pub enum DebugCommand {
    PrintPosition,
    SetPosition { position: String },
    Move { moves: Vec<UciMove> },
    Perft { depth: u8 },
    PerftDiv { depth: u8 },
    Eval,
}

/// A command of the protocol.
#[derive(Debug, PartialEq, Eq, Clone)]
pub enum UciCommand {
    Uci,
    Debug(bool),
    IsReady,
    SetOption { name: String, value: String },
    UciNewGame,
    Position { position: Position, moves: Vec<UciMove> },
    Go(GoCmdArguments),
    D(DebugCommand),
    Stop,
    PonderHit,
    Bench,
    Quit,
}

/// A position as text.
pub enum PositionView {
    Fen(Seq<char>),
    StartPos,
}

/// A move as read: source square, destination square and promotion.
pub type MoveView = (int, int, Option<PromotionPieceKind>);

/// The moves of a list, as read.
pub open spec fn moves_view(moves: Seq<UciMove>) -> Seq<MoveView> {
    moves.map_values(|m: UciMove| move_view(m))
}

/// A debug command, its texts and lists as sequences.
pub enum DebugView {
    PrintPosition,
    SetPosition(Seq<char>),
    Move(Seq<MoveView>),
    Perft(u8),
    PerftDiv(u8),
    Eval,
}

/// A command, its texts and lists as sequences.
pub enum CommandView {
    Uci,
    Debug(bool),
    IsReady,
    SetOption(Seq<char>, Seq<char>),
    UciNewGame,
    Position(PositionView, Seq<MoveView>),
    Go(GoCmdArguments),
    D(DebugView),
    Stop,
    PonderHit,
    Bench,
    Quit,
}

impl Position {
    pub open spec fn view_spec(self) -> PositionView {
        match self {
            Position::Fen(f) => PositionView::Fen(f@),
            Position::StartPos => PositionView::StartPos,
        }
    }
}

impl DebugCommand {
    pub open spec fn view_spec(self) -> DebugView {
        match self {
            DebugCommand::PrintPosition => DebugView::PrintPosition,
            DebugCommand::SetPosition { position } => DebugView::SetPosition(position@),
            DebugCommand::Move { moves } => DebugView::Move(moves_view(moves@)),
            DebugCommand::Perft { depth } => DebugView::Perft(depth),
            DebugCommand::PerftDiv { depth } => DebugView::PerftDiv(depth),
            DebugCommand::Eval => DebugView::Eval,
        }
    }
}

impl UciCommand {
    pub open spec fn view_spec(self) -> CommandView {
        match self {
            UciCommand::Uci => CommandView::Uci,
            UciCommand::Debug(b) => CommandView::Debug(b),
            UciCommand::IsReady => CommandView::IsReady,
            UciCommand::SetOption { name, value } => CommandView::SetOption(name@, value@),
            UciCommand::UciNewGame => CommandView::UciNewGame,
            UciCommand::Position { position, moves } => CommandView::Position(position.view_spec(), moves_view(moves@)),
            UciCommand::Go(a) => CommandView::Go(a),
            UciCommand::D(d) => CommandView::D(d.view_spec()),
            UciCommand::Stop => CommandView::Stop,
            UciCommand::PonderHit => CommandView::PonderHit,
            UciCommand::Bench => CommandView::Bench,
            UciCommand::Quit => CommandView::Quit,
        }
    }
}

} // verus!
