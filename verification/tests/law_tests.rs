use chess_engine::engine::search::aspiration::Window;
use chess_engine::chess::bitboard::Bitboard;
use chess_engine::chess::game::Game;
use chess_engine::chess::moves::Move;
use chess_engine::chess::perft::{perft, perft_div};
use chess_engine::chess::player::Player;
use chess_engine::chess::square::Square;
use chess_engine::engine::eval::player_eval::Eval;
use chess_engine::engine::eval::white_eval::WhiteEval;
use chess_engine::engine::search::transposition::{NodeBound, SearchTranspositionTableData, TTMove};
use chess_engine::engine::search::move_provider::MoveProvider;
use chess_engine::engine::search::{NullReporter, PersistentState, SearchRestrictions, SearchState, TimeControl, TimeStrategy};
use chess_engine::engine::strategy::{KnownStrategy, RandomMoveStrategy};
use chess_engine::engine::transposition_table::TranspositionTable;
use chess_engine::engine::uci::commands::{DebugCommand, UciCommand};
use chess_engine::engine::uci::parser::parse;
use chess_engine::engine::uci::uci_move::UciMove;

const KIWIPETE: &str = "r3k2r/p1ppqpb1/bn2pnp1/3PN3/1p2P3/2N2Q1p/PPPBBPPP/R3K2R w KQkq -";

/// The square named like `e4`.
fn sq(name: &str) -> Square {
    let b = name.as_bytes();
    Square::from_idxs((b[0] - b'a') as usize, (b[1] - b'1') as usize)
}

#[test]
fn perft_counts_of_the_start_position() {
    let game = Game::new();
    assert_eq!(perft(1, &game), 20);
    assert_eq!(perft(2, &game), 400);
    assert_eq!(perft(3, &game), 8902);
}

#[test]
fn perft_counts_of_kiwipete() {
    let game = Game::from_fen(KIWIPETE).unwrap();
    assert_eq!(perft(1, &game), 48);
    assert_eq!(perft(2, &game), 2039);
}

#[test]
fn perft_div_adds_up_to_perft() {
    let game = Game::from_fen(KIWIPETE).unwrap();
    let div = perft_div(2, &game);
    assert_eq!(div.len(), 48);
    let total: usize = div.iter().map(|(_, n)| *n).sum();
    assert_eq!(total, perft(2, &game));
}

#[test]
fn undo_restores_the_game() {
    let mut game = Game::from_fen(KIWIPETE).unwrap();
    let before = game.duplicate();
    for mv in Game::from_fen(KIWIPETE).unwrap().moves() {
        game.make_move(mv);
        game.undo_move();
        for i in 0..64u8 {
            let s = Square::from_index(i);
            assert_eq!(game.board.piece_at(s), before.board.piece_at(s));
        }
        assert_eq!(game.player, before.player);
        assert_eq!(game.zobrist, before.zobrist);
        assert_eq!(game.halfmove_clock, before.halfmove_clock);
        assert_eq!(game.plies, before.plies);
        assert_eq!(game.en_passant_target, before.en_passant_target);
        assert_eq!(game.history.len(), 0);
    }
    game.make_null_move();
    game.undo_null_move();
    assert_eq!(game.player, before.player);
    assert_eq!(game.zobrist, before.zobrist);
}

#[test]
fn transposition_table_reads_back_a_write() {
    let mut tt: TranspositionTable<SearchTranspositionTableData> = TranspositionTable::new(1);
    let data = SearchTranspositionTableData {
        bound: NodeBound::Exact,
        eval: Eval(42),
        depth: 3,
        age: tt.generation(),
        best_move: Some(TTMove::from_move(Move::new(sq("e2"), sq("e4")))),
    };
    tt.insert(&12345, data);
    let got = tt.get(&12345).unwrap();
    assert_eq!(got.eval, Eval(42));
    assert_eq!(got.depth, 3);
    assert!(tt.get(&54321).is_none());
}

#[test]
fn tt_move_round_trip() {
    let mv = Move::capture_promotion(sq("b7"), sq("a8"), chess_engine::chess::piece::PromotionPieceKind::Rook);
    let back = TTMove::from_move(mv).to_move();
    assert_eq!(back.src(), mv.src());
    assert_eq!(back.dst(), mv.dst());
    assert_eq!(back.promotion(), mv.promotion());
}

#[test]
fn white_eval_round_trip() {
    let e = Eval(-123);
    assert_eq!(e.to_white_eval(Player::Black), WhiteEval(123));
    assert_eq!(Eval::from_white_eval(e.to_white_eval(Player::Black), Player::Black), e);
    assert_eq!(Eval::from_white_eval(e.to_white_eval(Player::White), Player::White), e);
}

#[test]
fn mate_distance_round_trip() {
    let e = Eval::mate_in(7);
    assert_eq!(e.with_mate_distance_from_position(3).with_mate_distance_from_root(3), e);
    assert_eq!(Eval::mate_in(1).is_mate_in_moves(), Some(1));
    assert_eq!(Eval::mated_in(4).is_mate_in_moves(), Some(-2));
    assert_eq!(Eval(15).is_mate_in_moves(), None);
}

#[test]
fn uci_move_names_read_back() {
    let mv = UciMove::new_with_promotion(sq("c2"), sq("c1"), chess_engine::chess::piece::PromotionPieceKind::Bishop);
    let line = format!("d move {}", mv.notation());
    assert_eq!(parse(&line).unwrap(), UciCommand::D(DebugCommand::Move { moves: vec![mv] }));
}

#[test]
fn flipping_twice_restores_the_board() {
    let board = Game::from_fen(KIWIPETE).unwrap().board;
    let twice = board.flip_vertically().flip_vertically();
    for i in 0..64u8 {
        let s = Square::from_index(i);
        assert_eq!(twice.piece_at(s), board.piece_at(s));
    }
}

#[test]
fn bitboard_drawing_marks_its_squares() {
    let mut b = Bitboard::empty();
    b.set_inplace(sq("a8"));
    b.set_inplace(sq("h1"));
    assert_eq!(
        b.to_string(),
        "* . . . . . . .\n. . . . . . . .\n. . . . . . . .\n. . . . . . . .\n. . . . . . . .\n. . . . . . . .\n. . . . . . . .\n. . . . . . . *"
    );
}

#[test]
fn board_drawing_of_the_start_position() {
    let text = Game::new().board.to_debug_string();
    assert_eq!(
        text,
        "\n♖ ♘ ♗ ♕ ♔ ♗ ♘ ♖\n♙ ♙ ♙ ♙ ♙ ♙ ♙ ♙\n. . . . . . . .\n. . . . . . . .\n. . . . . . . .\n. . . . . . . .\n♟ ♟ ♟ ♟ ♟ ♟ ♟ ♟\n♜ ♞ ♝ ♛ ♚ ♝ ♞ ♜\n"
    );
}

#[test]
fn fifty_move_rule() {
    let drawn = Game::from_fen("k7/8/8/8/8/8/8/K6R w - - 100 80").unwrap();
    assert!(drawn.is_stalemate_by_fifty_move_rule());
    let young = Game::from_fen("k7/8/8/8/8/8/8/K6R w - - 99 80").unwrap();
    assert!(!young.is_stalemate_by_fifty_move_rule());
    let mated = Game::from_fen("k6R/8/1K6/8/8/8/8/8 b - - 100 80").unwrap();
    assert!(!mated.is_stalemate_by_fifty_move_rule());
}

#[test]
fn insufficient_material() {
    assert!(Game::from_fen("k7/8/8/8/8/8/8/KN6 w - - 0 1").unwrap().is_stalemate_by_insufficient_material());
    assert!(!Game::from_fen("k7/8/8/8/8/8/8/KNB5 w - - 0 1").unwrap().is_stalemate_by_insufficient_material());
}

#[test]
fn random_strategy_plays_the_only_legal_move() {
    // The black king on a8 has a single legal move.
    let game = Game::from_fen("k7/8/1K6/8/8/8/8/7R b - - 0 1").unwrap();
    let moves = game.moves();
    assert_eq!(moves.len(), 1);
    let mut strategy = RandomMoveStrategy;
    let mv = strategy.go(&game, &NullReporter);
    assert_eq!(mv, moves[0]);
    let start = Game::new();
    for _ in 0..20 {
        let mv = strategy.go(&start, &NullReporter);
        assert!(start.moves().contains(&mv));
    }
}

#[test]
fn known_strategy_names() {
    assert_eq!(KnownStrategy::Main.to_string(), "Main");
    assert_eq!(KnownStrategy::Random.to_string(), "Random");
    assert_eq!(KnownStrategy::TopEval.to_string(), "TopEval");
}

#[test]
fn search_plays_a_legal_move() {
    let game = Game::from_fen(KIWIPETE).unwrap();
    let mut persistent_state = PersistentState::new(1);
    let (mut time_strategy, _control) =
        TimeStrategy::with_budget(TimeControl::Infinite, u64::MAX, [u64::MAX; 5], u64::MAX);
    let restrictions = SearchRestrictions { depth: Some(3) };
    let options = chess_engine::engine::options::EngineOptions::default();
    let mut reporter = chess_engine::engine::search::CapturingReporter::new();
    let best = chess_engine::engine::search::search(
        &game,
        &mut persistent_state,
        &mut time_strategy,
        &restrictions,
        &options,
        &mut reporter,
    )
    .unwrap();
    assert!(game.moves().contains(&best));
    assert!(reporter.nodes > 0);
}

#[test]
fn stopped_search_still_plays_a_legal_move() {
    let game = Game::new();
    let mut persistent_state = PersistentState::new(1);
    let (mut time_strategy, control) =
        TimeStrategy::with_budget(TimeControl::Infinite, u64::MAX, [u64::MAX; 5], u64::MAX);
    control.stop();
    let restrictions = SearchRestrictions { depth: None };
    let options = chess_engine::engine::options::EngineOptions::default();
    let mut reporter = NullReporter;
    let best = chess_engine::engine::search::search(
        &game,
        &mut persistent_state,
        &mut time_strategy,
        &restrictions,
        &options,
        &mut reporter,
    )
    .unwrap();
    assert!(game.moves().contains(&best));
}

#[test]
fn move_providers_hand_out_every_legal_move() {
    let game = Game::from_fen(KIWIPETE).unwrap();
    let persistent_state = PersistentState::new(1);
    let search_state = SearchState::new();

    let mut all = MoveProvider::new(None);
    let mut handed: Vec<Move> = Vec::new();
    while let Some(m) = all.next(&game, &persistent_state, &search_state, 0) {
        handed.push(m);
    }
    assert_eq!(handed.len(), 48);
    for m in game.moves() {
        assert!(handed.contains(&m));
    }

    let mut loud = MoveProvider::new_loud();
    let mut captures: Vec<Move> = Vec::new();
    while let Some(m) = loud.next(&game, &persistent_state, &search_state, 0) {
        captures.push(m);
    }
    let expected = game.captures();
    assert_eq!(captures.len(), expected.len());
    for m in expected {
        assert!(captures.contains(&m));
    }
}

/// The root score of a position with no legal move, searched one ply deep.
fn root_score(fen: &str) -> Result<Eval, ()> {
    let mut game = Game::from_fen(fen).unwrap();
    let mut persistent_state = PersistentState::new(1);
    let mut state = SearchState::new();
    let mut pv = chess_engine::engine::search::principal_variation::PrincipalVariation::new();
    let (mut time_control, _control) =
        TimeStrategy::with_budget(TimeControl::Infinite, u64::MAX, [u64::MAX; 5], u64::MAX);
    let r = chess_engine::engine::search::negamax::negamax(
        &mut game, Eval::min(), Eval::max(), 1, 0, &mut persistent_state, &mut pv, &mut time_control, &mut state,
    );
    assert_eq!(pv.len(), 0);
    r
}

#[test]
fn negamax_scores_checkmate_and_stalemate() {
    assert_eq!(root_score("k7/1Q6/1K6/8/8/8/8/8 b - - 0 1"), Ok(Eval(-32000)));
    assert_eq!(root_score("k7/8/1Q6/8/8/8/8/K7 b - - 0 1"), Ok(Eval(0)));
}

#[test]
fn aspiration_window_settles_or_widens() {
    let mut w = Window::around(Eval(100), Eval(25));
    assert!(w.settle(Eval(110)));
    assert_eq!((w.alpha, w.beta, w.width), (Eval(75), Eval(125), Eval(25)));
    assert!(!w.settle(Eval(75)));
    assert_eq!((w.alpha, w.beta, w.width), (Eval(25), Eval(125), Eval(50)));
    assert!(!w.settle(Eval(200)));
    assert_eq!((w.alpha, w.beta, w.width), (Eval(25), Eval(225), Eval(100)));
    let mut open = Window::no_window();
    assert!(open.settle(Eval::max()));
}

#[test]
fn time_decisions_follow_the_readings() {
    let (mut exact, _c) = TimeStrategy::with_budget(TimeControl::ExactTime(100), 50, [50; 5], 80);
    assert!(exact.start_decision(1, true, 1000));
    assert!(exact.start_decision(2, false, 99));
    assert!(!exact.start_decision(2, false, 100));
    assert!(!exact.start_decision(2, true, 0));
    assert!(!exact.stop_decision(10000, false, 100));
    assert!(exact.stop_decision(10000, false, 101));
    assert_eq!(exact.next_check_at, 20000);
    let (clocks, _c) = TimeStrategy::with_budget(
        TimeControl::Clocks(chess_engine::engine::search::Clocks {
            white_clock: Some(1000), black_clock: Some(1000), white_increment: None,
            black_increment: None, moves_to_go: None,
        }),
        50, [10, 20, 30, 40, 60], 80);
    assert!(clocks.start_decision(2, false, 49));
    assert!(!clocks.start_decision(2, false, 50));
    let (mut infinite, _c) = TimeStrategy::with_budget(TimeControl::Infinite, 0, [0; 5], 0);
    assert!(infinite.start_decision(9, false, u64::MAX));
    assert!(!infinite.stop_decision(10000, false, u64::MAX));
    assert!(infinite.stop_decision(10000, true, 0));
}

/// The capture-search score of a position with the given window.
fn capture_score(fen: &str, alpha: Eval, beta: Eval) -> Result<Eval, ()> {
    let mut game = Game::from_fen(fen).unwrap();
    let mut persistent_state = PersistentState::new(1);
    let mut state = SearchState::new();
    let (mut time_control, _control) =
        TimeStrategy::with_budget(TimeControl::Infinite, u64::MAX, [u64::MAX; 5], u64::MAX);
    chess_engine::engine::search::quiescence::quiescence(
        &mut game, alpha, beta, 0, &mut time_control, &mut persistent_state, &mut state,
    )
}

fn static_score(fen: &str) -> Eval {
    chess_engine::engine::eval::eval_clamped(&Game::from_fen(fen).unwrap())
}

#[test]
fn capture_search_of_a_quiet_position_stands_pat() {
    let fen = "rnbqkbnr/pppppppp/8/8/8/8/PPPPPPPP/RNBQKBNR w KQkq - 0 1";
    assert_eq!(capture_score(fen, Eval(-100), Eval(100)), Ok(static_score(fen)));
}

#[test]
fn capture_search_takes_a_hanging_queen() {
    let before = "4k3/8/8/3q4/4P3/8/8/4K3 w - - 0 1";
    let after = "4k3/8/8/3P4/8/8/8/4K3 b - - 0 1";
    let expected = Eval(-static_score(after).0);
    assert!(expected.0 > static_score(before).0);
    assert_eq!(capture_score(before, Eval(-32767), Eval(32767)), Ok(expected));
    // Outside the window the score is a bound: at or above beta.
    let bounded = capture_score(before, Eval(-32767), Eval(expected.0 - 100)).unwrap();
    assert!(bounded.0 >= expected.0 - 100 && bounded.0 <= expected.0);
}

#[test]
fn one_ply_search_takes_the_hanging_queen() {
    let before = "4k3/8/8/3q4/4P3/8/8/4K3 w - - 0 1";
    let after = "4k3/8/8/3P4/8/8/8/4K3 b - - 0 1";
    let mut game = Game::from_fen(before).unwrap();
    let mut persistent_state = PersistentState::new(1);
    let mut state = SearchState::new();
    let mut pv = chess_engine::engine::search::principal_variation::PrincipalVariation::new();
    let (mut time_control, _control) =
        TimeStrategy::with_budget(TimeControl::Infinite, u64::MAX, [u64::MAX; 5], u64::MAX);
    let r = chess_engine::engine::search::negamax::negamax(
        &mut game, Eval::min(), Eval::max(), 1, 0, &mut persistent_state, &mut pv, &mut time_control, &mut state,
    );
    assert_eq!(r, Ok(Eval(-static_score(after).0)));
    let first = pv.first().unwrap();
    assert_eq!((first.src(), first.dst()), (sq("e4"), sq("d5")));
}

#[test]
fn depth_one_search_plays_the_best_reply() {
    let game = Game::from_fen("4k3/8/8/3q4/4P3/8/8/4K3 w - - 0 1").unwrap();
    let mut persistent_state = PersistentState::new(1);
    let (mut time_strategy, _control) =
        TimeStrategy::with_budget(TimeControl::Infinite, u64::MAX, [u64::MAX; 5], u64::MAX);
    let restrictions = SearchRestrictions { depth: Some(1) };
    let options = chess_engine::engine::options::EngineOptions::default();
    let mut reporter = NullReporter;
    let m = chess_engine::engine::search::search(
        &game, &mut persistent_state, &mut time_strategy, &restrictions, &options, &mut reporter,
    )
    .unwrap();
    assert_eq!((m.src(), m.dst()), (sq("e4"), sq("d5")));
}

#[test]
fn attackers_are_the_opponent_pieces_that_attack() {
    let game = Game::from_fen("k7/8/8/8/8/8/8/K6r w - - 0 1").unwrap();
    let attackers = chess_engine::chess::movegen::attackers::generate_attackers_of(&game.board, Player::White, sq("a1"));
    assert_eq!(attackers, Bitboard::empty().or(sq("h1").bb()));
    // A piece standing in between blocks the line.
    let blocked = Game::from_fen("k7/8/8/8/8/8/8/K3N2r w - - 0 1").unwrap();
    let none = chess_engine::chess::movegen::attackers::generate_attackers_of(&blocked.board, Player::White, sq("a1"));
    assert_eq!(none, Bitboard::empty());
    // A pawn attacks one step diagonally forward for its own side.
    let pawn = Game::from_fen("k7/8/8/8/8/8/1p6/K7 w - - 0 1").unwrap();
    let by_pawn = chess_engine::chess::movegen::attackers::generate_attackers_of(&pawn.board, Player::White, sq("a1"));
    assert_eq!(by_pawn, Bitboard::empty().or(sq("b2").bb()));
}

#[test]
fn king_steps_only_to_unattacked_squares() {
    let game = Game::from_fen("k7/8/8/8/8/8/r7/4K3 w - - 0 1").unwrap();
    let moves = game.moves();
    assert_eq!(moves.len(), 2);
    assert!(moves.iter().all(|m| m.src() == sq("e1") && (m.dst() == sq("d1") || m.dst() == sq("f1"))));
    // The king may take an unprotected attacker next to it.
    let take = Game::from_fen("k7/8/8/8/8/8/4r3/4K3 w - - 0 1").unwrap();
    assert!(take.moves().iter().any(|m| m.src() == sq("e1") && m.dst() == sq("e2")));
}

#[test]
fn root_line_starts_with_a_legal_move_at_any_depth() {
    let fen = "r1bqkbnr/pppp1ppp/2n5/4p3/4P3/5N2/PPPP1PPP/RNBQKB1R w KQkq - 2 3";
    let mut game = Game::from_fen(fen).unwrap();
    let mut persistent_state = PersistentState::new(1);
    let mut state = SearchState::new();
    let mut pv = chess_engine::engine::search::principal_variation::PrincipalVariation::new();
    let (mut time_control, _control) =
        TimeStrategy::with_budget(TimeControl::Infinite, u64::MAX, [u64::MAX; 5], u64::MAX);
    let r = chess_engine::engine::search::negamax::negamax(
        &mut game, Eval::min(), Eval::max(), 3, 0, &mut persistent_state, &mut pv, &mut time_control, &mut state,
    )
    .unwrap();
    assert!(r.0 > Eval::min().0 && r.0 < Eval::max().0);
    let first = pv.first().unwrap();
    assert!(Game::from_fen(fen).unwrap().moves().contains(&first));
}
