use chess_engine::chess::piece::PromotionPieceKind;
use chess_engine::chess::player::Player;
use chess_engine::chess::square::Square;
use chess_engine::engine::search::time_control::{Clocks, TimeControl};
use chess_engine::engine::uci::commands::{DebugCommand, GoCmdArguments, Position, UciCommand};
use chess_engine::engine::uci::options::{parse_usize, HashOption, MoveOverheadOption, SyzygyPath, ThreadsOption, UciOptionType};
use chess_engine::engine::uci::parser::{parse, uci_moves};
use chess_engine::engine::uci::responses::{IdParam, InfoFields, InfoScore, UciResponse};
use chess_engine::engine::uci::session::{Uci, UciAction, UciInputMode};
use chess_engine::engine::uci::uci_move::UciMove;
use chess_engine::engine::options::EngineOptions;

/// The square named like `e4`.
fn sq(name: &str) -> Square {
    let b = name.as_bytes();
    Square::from_idxs((b[0] - b'a') as usize, (b[1] - b'1') as usize)
}

fn uci_move(src: &str, dst: &str) -> UciMove {
    UciMove::new(sq(src), sq(dst))
}

fn no_go_args() -> GoCmdArguments {
    GoCmdArguments {
        ponder: false,
        wtime: None,
        btime: None,
        winc: None,
        binc: None,
        movestogo: None,
        depth: None,
        nodes: None,
        movetime: None,
        infinite: false,
    }
}

#[test]
fn parse_position_startpos_with_moves() {
    let cmd = parse("position startpos moves e2e4 e7e5").unwrap();
    assert_eq!(
        cmd,
        UciCommand::Position {
            position: Position::StartPos,
            moves: vec![uci_move("e2", "e4"), uci_move("e7", "e5")],
        }
    );
}

#[test]
fn parse_position_fen_keeps_text_before_moves() {
    let cmd = parse("position fen 8/8/8/8/8/8/8/K6k w - - 0 1 moves a1a2").unwrap();
    assert_eq!(
        cmd,
        UciCommand::Position {
            position: Position::Fen("8/8/8/8/8/8/8/K6k w - - 0 1".to_string()),
            moves: vec![uci_move("a1", "a2")],
        }
    );
}

#[test]
fn parse_promotion_move() {
    let cmd = parse("d move e7e8q").unwrap();
    assert_eq!(
        cmd,
        UciCommand::D(DebugCommand::Move {
            moves: vec![UciMove::new_with_promotion(sq("e7"), sq("e8"), PromotionPieceKind::Queen)],
        })
    );
}

#[test]
fn parse_go_arguments() {
    let cmd = parse("go wtime 1000 btime -5 winc 10 binc 20 movestogo 30 depth 6 nodes 7 movetime 8 ponder infinite").unwrap();
    let expected = GoCmdArguments {
        ponder: true,
        wtime: Some(1000),
        btime: Some(0),
        winc: Some(10),
        binc: Some(20),
        movestogo: Some(30),
        depth: Some(6),
        nodes: Some(7),
        movetime: Some(8),
        infinite: true,
    };
    assert_eq!(cmd, UciCommand::Go(expected));
}

#[test]
fn parse_go_without_arguments() {
    assert_eq!(parse("go").unwrap(), UciCommand::Go(no_go_args()));
}

#[test]
fn parse_go_depth_out_of_range_is_refused() {
    assert!(parse("go depth 256").is_err());
    assert!(parse("go depth 255").is_ok());
}

#[test]
fn parse_setoption() {
    let cmd = parse("setoption name Move Overhead value 100").unwrap();
    assert_eq!(
        cmd,
        UciCommand::SetOption { name: "Move Overhead".to_string(), value: "100".to_string() }
    );
}

#[test]
fn parse_debug_commands() {
    assert_eq!(parse("d perftdiv 3").unwrap(), UciCommand::D(DebugCommand::PerftDiv { depth: 3 }));
    assert_eq!(parse("d perft 4").unwrap(), UciCommand::D(DebugCommand::Perft { depth: 4 }));
    assert_eq!(parse("d fen").unwrap(), UciCommand::D(DebugCommand::PrintPosition));
    assert_eq!(parse("deval").unwrap(), UciCommand::D(DebugCommand::Eval));
    assert_eq!(
        parse("d position kiwipete").unwrap(),
        UciCommand::D(DebugCommand::SetPosition { position: "kiwipete".to_string() })
    );
}

#[test]
fn parse_simple_commands() {
    assert_eq!(parse("ucinewgame").unwrap(), UciCommand::UciNewGame);
    assert_eq!(parse("stop").unwrap(), UciCommand::Stop);
    assert_eq!(parse("ponderhit").unwrap(), UciCommand::PonderHit);
    assert_eq!(parse("bench").unwrap(), UciCommand::Bench);
    assert_eq!(parse("quit").unwrap(), UciCommand::Quit);
}

#[test]
fn parse_unknown_command_names_the_line() {
    assert_eq!(parse("foo bar"), Err("Unknown command: foo bar (no command reads at: foo bar)".to_string()));
    assert_eq!(parse("  debugon"), Err("Unknown command:   debugon (no command reads at: debugon)".to_string()));
    assert!(parse("uci ").unwrap_err().starts_with("Unknown command: uci  ("));
    assert!(parse("position startpos moves").is_err());
}

#[test]
fn uci_moves_returns_the_rest() {
    let (moves, rest) = uci_moves("e2e4 e7e5 x").unwrap();
    assert_eq!(moves, vec![uci_move("e2", "e4"), uci_move("e7", "e5")]);
    assert_eq!(rest, " x");
    assert!(uci_moves("x").is_none());
}

#[test]
fn usize_values_read_as_std_does() {
    assert_eq!(parse_usize("64"), Some(64));
    assert_eq!(parse_usize("+12"), Some(12));
    assert_eq!(parse_usize("64 "), None);
    assert_eq!(parse_usize("-1"), None);
    assert_eq!(parse_usize(""), None);
    assert_eq!(parse_usize("+"), None);
    assert_eq!(parse_usize("18446744073709551616"), None);
    assert_eq!(parse_usize("18446744073709551615"), Some(usize::MAX));
}

#[test]
fn options_are_set_from_text() {
    let mut options = EngineOptions::default();
    assert_eq!(HashOption::set(&mut options, "64"), Ok(64));
    assert_eq!(options.hash_size, 64);
    assert_eq!(HashOption::set(&mut options, "lots"), Err("Invalid value".to_string()));
    assert_eq!(options.hash_size, 64);
    assert_eq!(ThreadsOption::set(&mut options, "2"), Ok(()));
    assert_eq!(options.threads, 2);
    assert_eq!(MoveOverheadOption::set(&mut options, "30"), Ok(()));
    assert_eq!(options.move_overhead, 30);
    assert_eq!(SyzygyPath::set(&mut options, "/tb"), "/tb".to_string());
    assert_eq!(options.syzygy_path, Some("/tb".to_string()));
}

#[test]
fn response_lines() {
    assert_eq!(UciResponse::UciOk.as_string(), "uciok");
    assert_eq!(UciResponse::ReadyOk.as_string(), "readyok");
    assert_eq!(UciResponse::Id(IdParam::Name("Engine 1.0".to_string())).as_string(), "id name Engine 1.0");
    assert_eq!(UciResponse::Id(IdParam::Author("Someone".to_string())).as_string(), "id author Someone");
    let best = UciResponse::BestMove {
        mv: UciMove::new_with_promotion(sq("a7"), sq("a8"), PromotionPieceKind::Knight),
        ponder: None,
    };
    assert_eq!(best.as_string(), "bestmove a7a8n");
    let option = UciResponse::option(HashOption::name(), HashOption::def());
    assert_eq!(option.as_string(), "option name Hash type spin default 256 min 0 max 1024");
    let check = UciResponse::option("Ponder", UciOptionType::Check { default: false });
    assert_eq!(check.as_string(), "option name Ponder type check default false");
    let combo = UciResponse::option("Style", UciOptionType::Combo { default: "Normal", values: vec!["Solid", "Risky"] });
    assert_eq!(combo.as_string(), "option name Style type combo default Normal var Solid var Risky");
}

#[test]
fn info_line_keeps_field_order() {
    let mut f = InfoFields::new();
    f.depth = Some(5);
    f.seldepth = Some(7);
    f.time = Some(120);
    f.nodes = Some(3000);
    f.nps = Some(25000);
    f.score = Some(InfoScore::Centipawns(-35));
    f.pv = Some(vec![uci_move("e2", "e4")]);
    f.hashfull = Some(10);
    assert_eq!(
        UciResponse::Info(f).as_string(),
        "info depth 5 seldepth 7 time 120 nodes 3000 nps 25000 score cp -35"
    );
    let mut g = InfoFields::new();
    g.score = Some(InfoScore::Mate(-2));
    g.currmove = Some(uci_move("g1", "f3"));
    assert_eq!(UciResponse::Info(g).as_string(), "info currmove g1f3 score mate -2");
}

fn lines(step_responses: &[UciResponse]) -> Vec<String> {
    step_responses.iter().map(|r| r.as_string()).collect()
}

#[test]
fn uci_command_announces_the_engine() {
    let mut uci = Uci::new("Engine 1.0");
    let step = uci.execute(&UciCommand::Uci).unwrap();
    assert_eq!(
        lines(&step.responses),
        vec![
            "id name Engine 1.0",
            "id author Jonathan Gilchrist",
            "option name Hash type spin default 256 min 0 max 1024",
            "option name Threads type spin default 1 min 1 max 1",
            "option name Move Overhead type spin default 0 min 0 max 1000",
            "uciok",
        ]
    );
    let step = uci.execute(&UciCommand::IsReady).unwrap();
    assert_eq!(lines(&step.responses), vec!["readyok"]);
}

#[test]
fn setoption_updates_options_or_explains() {
    let mut uci = Uci::new("e");
    let step = uci
        .execute(&UciCommand::SetOption { name: "Hash".to_string(), value: "64".to_string() })
        .unwrap();
    assert!(matches!(step.action, UciAction::ResizeHash(64)));
    assert_eq!(uci.options.hash_size, 64);
    let err = uci.execute(&UciCommand::SetOption { name: "Hash".to_string(), value: "x".to_string() });
    assert_eq!(err.err(), Some("Unable to set Hash: \"Invalid value\"".to_string()));
    let err = uci.execute(&UciCommand::SetOption { name: "Colour".to_string(), value: "1".to_string() });
    assert_eq!(err.err(), Some("Unknown option: Colour".to_string()));
    assert_eq!(uci.options.hash_size, 64);
}

#[test]
fn position_command_plays_the_moves() {
    let mut uci = Uci::new("e");
    let cmd = parse("position startpos moves e2e4 e7e5 g1f3").unwrap();
    let step = uci.execute(&cmd).unwrap();
    assert!(matches!(step.action, UciAction::Continue));
    assert_eq!(uci.game.player, Player::Black);
    assert_eq!(uci.game.plies, 3);
    assert!(uci.game.board.piece_at(sq("f3")).is_some());
    assert!(uci.game.board.piece_at(sq("g1")).is_none());
}

#[test]
fn position_command_refuses_illegal_moves_and_bad_fen() {
    let mut uci = Uci::new("e");
    let cmd = parse("position startpos moves e2e5").unwrap();
    assert_eq!(uci.execute(&cmd).err(), Some("Illegal move".to_string()));
    assert_eq!(uci.game.plies, 0);
    let cmd = UciCommand::Position { position: Position::Fen("nonsense".to_string()), moves: vec![] };
    assert_eq!(uci.execute(&cmd).err(), Some("Invalid FEN: nonsense (cannot read the piece placement)".to_string()));
}

#[test]
fn go_and_stop() {
    let mut uci = Uci::new("e");
    let cmd = parse("go wtime 1000 btime 2000 movetime 50").unwrap();
    let step = uci.execute(&cmd).unwrap();
    match step.action {
        UciAction::Search { time_control: TimeControl::Clocks(Clocks { white_clock, black_clock, .. }), restrictions } => {
            assert_eq!(white_clock, Some(1000));
            assert_eq!(black_clock, Some(2000));
            assert_eq!(restrictions.depth, None);
        }
        _ => panic!("expected a search with clocks"),
    }
    assert!(uci.searching);
    let step = uci.execute(&UciCommand::Stop).unwrap();
    assert!(matches!(step.action, UciAction::StopSearch));
    let step = uci.execute(&UciCommand::Stop).unwrap();
    assert!(matches!(step.action, UciAction::Continue));

    let step = uci.execute(&parse("go movetime 50 depth 3").unwrap()).unwrap();
    match step.action {
        UciAction::Search { time_control: TimeControl::ExactTime(t), restrictions } => {
            assert_eq!(t, 50);
            assert_eq!(restrictions.depth, Some(3));
        }
        _ => panic!("expected a search with a fixed time"),
    }
    let step = uci.execute(&parse("go").unwrap()).unwrap();
    assert!(matches!(step.action, UciAction::Search { time_control: TimeControl::Infinite, .. }));
}

#[test]
fn debug_commands_and_quit() {
    let mut uci = Uci::new("e");
    let step = uci.execute(&parse("d position kiwipete").unwrap()).unwrap();
    assert!(matches!(step.action, UciAction::PrintPosition));
    assert_eq!(uci.game.moves().len(), 48);
    let err = uci.execute(&parse("d position nowhere").unwrap());
    assert_eq!(err.err(), Some("Unknown debug position".to_string()));
    let step = uci.execute(&parse("d move e1g1").unwrap()).unwrap();
    assert!(matches!(step.action, UciAction::PrintPosition));
    assert_eq!(uci.game.player, Player::Black);
    assert!(matches!(uci.execute(&parse("d perft 2").unwrap()).unwrap().action, UciAction::Perft(2)));
    assert!(matches!(uci.execute(&UciCommand::Debug(true)).unwrap().action, UciAction::Continue));
    assert!(uci.debug);
    assert!(matches!(uci.execute(&UciCommand::UciNewGame).unwrap().action, UciAction::NewGame));
    assert_eq!(uci.game.plies, 0);
    assert!(matches!(uci.execute(&UciCommand::Quit).unwrap().action, UciAction::Exit));
}

#[test]
fn input_mode_decides_waiting() {
    assert!(UciInputMode::Commands(vec!["uci".to_string()]).blocks_on_threads());
    assert!(!UciInputMode::Stdin.blocks_on_threads());
}
