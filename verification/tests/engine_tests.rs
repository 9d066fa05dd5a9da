use chess_engine::chess::game::Game;
use chess_engine::chess::moves::Move;
use chess_engine::chess::square::Square;
use chess_engine::engine::eval::passed_pawns;
use chess_engine::engine::eval::tapered_eval::{taper, PhasedEval};
use chess_engine::engine::eval::trace::{NonZeroCoefficient, Trace, TRACE_SIZE};
use chess_engine::engine::eval::white_eval::WhiteEval;
use chess_engine::chess::player::Player;
use chess_engine::engine::options::EngineOptions;
use chess_engine::engine::search::move_ordering::score_move;
use chess_engine::engine::search::move_provider::MoveProvider;
use chess_engine::engine::search::principal_variation::PrincipalVariation;
use chess_engine::engine::search::transposition::SearchTranspositionTableData;
use chess_engine::engine::search::{
    search, CapturingReporter, PersistentState, SearchRestrictions, SearchScore, SearchState,
    TimeControl, TimeStrategy,
};
use chess_engine::engine::transposition_table::{calculate_number_of_entries, TranspositionTableEntry};

/// The square named like `e4`.
fn sq(name: &str) -> Square {
    let b = name.as_bytes();
    Square::from_idxs((b[0] - b'a') as usize, (b[1] - b'1') as usize)
}

fn same_squares(m: Move, src: &str, dst: &str) -> bool {
    m.src() == sq(src) && m.dst() == sq(dst)
}

#[test]
fn test_bonus_for_passed_pawn_white() {
    let game = Game::from_fen("k7/4P3/8/8/8/8/8/K7 w - - 0 1").unwrap();

    let passed_pawn_eval = passed_pawns::eval(&game.board);
    assert_eq!(passed_pawn_eval.midgame(), WhiteEval(260));
    assert_eq!(passed_pawn_eval.endgame(), WhiteEval(280));
}

#[test]
fn test_bonus_for_passed_pawn_black() {
    let game = Game::from_fen("k7/8/8/8/8/8/4p3/K7 w - - 0 1").unwrap();

    let passed_pawn_eval = passed_pawns::eval(&game.board);
    assert_eq!(passed_pawn_eval.midgame(), WhiteEval(-260));
    assert_eq!(passed_pawn_eval.endgame(), WhiteEval(-280));
}

#[test]
fn test_eval_calculation_does_not_overflow() {
    let phased_eval = PhasedEval::new(2456, 2393);
    let phase_value = 9;

    let eval = taper(phase_value, phased_eval);
    assert!(eval > WhiteEval(0));
}

#[test]
fn test_eval_retains_midgame_and_endgame_vals() {
    let phased_eval = PhasedEval::new(2456, 2393);

    assert_eq!(phased_eval.midgame().0, 2456);
    assert_eq!(phased_eval.endgame().0, 2393);
}

#[test]
fn phased_evals_pack_at_the_edges() {
    let e = PhasedEval::new(-1, 5);
    assert_eq!(e.midgame().0, -1);
    assert_eq!(e.endgame().0, 5);
    let e = PhasedEval::new(7, i16::MIN);
    assert_eq!(e.midgame().0, 7);
    assert_eq!(e.endgame().0, i16::MIN);
    let e = PhasedEval::new(i16::MIN, i16::MAX);
    assert_eq!(e.midgame().0, i16::MIN);
    assert_eq!(e.endgame().0, i16::MAX);
}

#[test]
fn test_mvv_lva() {
    let game = Game::from_fen("k3B3/8/n1q1R1r1/1P6/1NQn4/7P/2r5/5K2 w - - 0 1").unwrap();
    let history = [[0i32; 64]; 64];
    let mut moves: Vec<(Move, i32)> = game
        .moves()
        .into_iter()
        .map(|mv| (mv, score_move(&game, mv, None, [None; 2], &history)))
        .collect();

    moves.sort_unstable_by_key(|m| -m.1);

    assert!(same_squares(moves[0].0, "b5", "c6")); // PxQ
    assert!(same_squares(moves[1].0, "b4", "c6")); // NxQ
    assert!(same_squares(moves[2].0, "e8", "c6")); // BxQ
    assert!(same_squares(moves[3].0, "e6", "c6")); // RxQ
    assert!(same_squares(moves[4].0, "c4", "c6")); // QxQ
    assert!(same_squares(moves[5].0, "b4", "c2")); // NxR
    assert!(same_squares(moves[6].0, "e8", "g6")); // BxR
    assert!(same_squares(moves[7].0, "e6", "g6")); // RxR
    assert!(same_squares(moves[8].0, "c4", "c2")); // QxR
    assert!(same_squares(moves[9].0, "b5", "a6")); // PxN
    assert!(same_squares(moves[10].0, "b4", "a6")); // NxN
    assert!(same_squares(moves[11].0, "c4", "d4")); // QxN
}

#[test]
fn test_moveprovider_does_not_double_yield_best_move() {
    let game = Game::new();

    let mut moves: Vec<Move> = Vec::new();
    let mut move_provider = MoveProvider::new(Some(Move::new(sq("g1"), sq("f3"))));

    let search_state = SearchState::new();
    let persistent_state = PersistentState::new(1);

    while let Some(m) = move_provider.next(&game, &persistent_state, &search_state, 0) {
        moves.push(m);
    }

    assert_eq!(moves.len(), 20);
}

/// Every move a provider hands out for `fen`, captures only when `loud`.
fn provided_moves(fen: &str, loud: bool) -> Vec<Move> {
    let game = Game::from_fen(fen).unwrap();
    let mut provider = if loud { MoveProvider::new_loud() } else { MoveProvider::new(None) };
    let search_state = SearchState::new();
    let persistent_state = PersistentState::new(1);
    let mut moves: Vec<Move> = Vec::new();
    while let Some(m) = provider.next(&game, &persistent_state, &search_state, 0) {
        moves.push(m);
    }
    moves
}

#[test]
fn moveprovider_keeps_captures_that_lose_material() {
    let moves = provided_moves("rnbqkbnr/pp1ppppp/8/2p5/3P4/5N2/PPP1PPPP/RNBQKB1R b KQkq - 0 2", false);
    assert_eq!(moves.len(), 23);
}

#[test]
fn moveprovider_hands_out_every_move_after_the_captures() {
    let moves = provided_moves("rnbqkb1r/ppp1pppp/5n2/3p4/4P3/2N5/PPPP1PPP/R1BQKBNR w KQkq - 0 3", false);
    assert_eq!(moves.len(), 33);
}

#[test]
fn moveprovider_yields_en_passant() {
    let moves = provided_moves("r1bqkb1r/ppp1pppp/2n2n2/2Pp4/8/5N2/PP1PPPPP/RNBQKB1R w KQkq d6 0 4", false);
    assert_eq!(moves.len(), 24);
    assert!(moves.iter().any(|m| same_squares(*m, "c5", "d6")));
}

#[test]
fn moveprovider_loud_hands_out_the_capture() {
    let moves = provided_moves("rnbqkbnr/ppp1pppp/8/3p4/4P3/8/PPPP1PPP/RNBQKBNR w KQkq - 0 2", true);
    assert_eq!(moves.len(), 1);
    assert!(same_squares(moves[0], "e4", "d5"));
}

#[test]
fn moveprovider_hands_out_captures_best_first() {
    let fen = "k3B3/8/n1q1R1r1/1P6/1NQn4/7P/2r5/5K2 w - - 0 1";
    let game = Game::from_fen(fen).unwrap();
    let history = [[0i32; 64]; 64];
    let moves = provided_moves(fen, true);
    assert!(moves.len() >= 12);
    let scores: Vec<i32> = moves.iter().map(|m| score_move(&game, *m, None, [None; 2], &history)).collect();
    for k in 1..scores.len() {
        assert!(scores[k - 1] >= scores[k]);
    }
    assert!(same_squares(moves[0], "b5", "c6"));
}

#[test]
fn test_new_pv_has_no_moves() {
    let pv = PrincipalVariation::new();
    assert_eq!(pv.len(), 0);
}

#[test]
fn test_combining_pvs_works() {
    let pv = PrincipalVariation::new();

    let mut pv_2 = PrincipalVariation::new();
    pv_2.push(Move::new(sq("a1"), sq("b1")), &pv);

    let mut pv_3 = PrincipalVariation::new();
    pv_3.push(Move::new(sq("c1"), sq("d1")), &pv_2);

    let mut pv_4 = PrincipalVariation::new();
    pv_4.push(Move::new(sq("e1"), sq("f1")), &pv_3);

    assert_eq!(pv_4.len(), 3);
    assert_eq!(pv_4.as_slice()[0].src(), sq("e1"));
    assert_eq!(pv_4.as_slice()[1].src(), sq("c1"));
    assert_eq!(pv_4.as_slice()[2].src(), sq("a1"));
}

#[test]
fn assert_tt_size() {
    assert_eq!(std::mem::size_of::<TranspositionTableEntry<SearchTranspositionTableData>>(), 16);
}

#[test]
fn assert_tt_entries_at_256mb() {
    let number_of_entries = calculate_number_of_entries::<SearchTranspositionTableData>(256);

    assert_eq!(number_of_entries, 16_777_216);
}

#[test]
fn test_mate_on_100th_halfmove_detected() {
    let game = Game::from_fen("4Q3/8/1p4pk/1PbB1p1p/7P/p3P1PK/P3qP2/8 w - - 99 88").unwrap();

    let mut persistent_state = PersistentState::new(128);
    let (mut time_strategy, _control) =
        TimeStrategy::with_budget(TimeControl::Infinite, u64::MAX, [u64::MAX; 5], u64::MAX);
    let restrictions = SearchRestrictions { depth: Some(5) };
    let options = EngineOptions::default();
    let mut reporter = CapturingReporter::new();

    let best_move = search(
        &game,
        &mut persistent_state,
        &mut time_strategy,
        &restrictions,
        &options,
        &mut reporter,
    )
    .unwrap();

    assert!(same_squares(best_move, "e8", "h8"));
    assert_eq!(reporter.score, Some(SearchScore::Mate(1)));
}

#[test]
fn trace_lists_the_parameters_that_apply() {
    let mut trace = Trace::new();
    assert!(trace.non_zero_coefficients().is_empty());

    trace.material[1].incr(Player::White);
    trace.knight_pst[3].incr(Player::Black);
    trace.bishop_pair.add(Player::Black, 2);

    assert_eq!(
        trace.non_zero_coefficients(),
        vec![
            NonZeroCoefficient::new(1, 1),
            NonZeroCoefficient::new(6 + 64 + 3, -1),
            NonZeroCoefficient::new(TRACE_SIZE - 1, -2),
        ]
    );
}

#[test]
fn moveprovider_hands_out_the_best_move_first_and_once() {
    let game = Game::new();
    let first = Move::new(sq("g1"), sq("f3"));
    let mut move_provider = MoveProvider::new(Some(first));
    let search_state = SearchState::new();
    let persistent_state = PersistentState::new(1);
    let mut moves: Vec<Move> = Vec::new();
    while let Some(m) = move_provider.next(&game, &persistent_state, &search_state, 0) {
        moves.push(m);
    }
    assert_eq!(moves.len(), 20);
    assert_eq!(moves[0], first);
    assert_eq!(moves.iter().filter(|m| **m == first).count(), 1);
    for i in 0..moves.len() {
        for j in (i + 1)..moves.len() {
            assert_ne!(moves[i], moves[j]);
        }
    }
}
