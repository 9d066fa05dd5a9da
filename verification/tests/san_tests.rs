use chess_engine::chess::game::Game;
use chess_engine::chess::moves::Move;
use chess_engine::chess::piece::PromotionPieceKind;
use chess_engine::chess::san::{format_move, required_ambiguity_resolution, AmbiguityResolution};
use chess_engine::chess::square::Square;

const START_POS: &str = "rnbqkbnr/pppppppp/8/8/8/8/PPPPPPPP/RNBQKBNR w KQkq - 0 1";

/// The square named like `e4`.
fn sq(name: &str) -> Square {
    let b = name.as_bytes();
    Square::from_idxs((b[0] - b'a') as usize, (b[1] - b'1') as usize)
}

fn test_san_string(fen: &'static str, mv: Move, expected_san: &'static str) {
    let game = Game::from_fen(fen).unwrap();
    let san = format_move(&game, mv);

    assert_eq!(&san, expected_san);
}

#[test]
fn san_simple_pawn_move() {
    test_san_string(START_POS, Move::new(sq("e2"), sq("e4")), "e4");
}

#[test]
fn san_simple_pawn_capture() {
    test_san_string(
        "rnbqkbnr/ppp1pppp/8/3p4/4P3/8/PPPP1PPP/RNBQKBNR w KQkq d6 0 2",
        Move::new(sq("e4"), sq("d5")),
        "exd5",
    );
}

#[test]
fn san_simple_knight_move() {
    test_san_string(START_POS, Move::new(sq("b1"), sq("c3")), "Nc3");
}

#[test]
fn san_test_en_passant() {
    test_san_string(
        "rnbqkbnr/ppp2ppp/4p3/3pP3/8/8/PPPP1PPP/RNBQKBNR w KQkq d6 0 3",
        Move::new(sq("e5"), sq("d6")),
        "exd6",
    );
}

#[test]
fn san_promotion() {
    let promotion_fen = "k7/7P/8/8/8/8/8/7K w - - 0 1";

    test_san_string(promotion_fen, Move::quiet_promotion(sq("h7"), sq("h8"), PromotionPieceKind::Knight), "h8=N");
    test_san_string(promotion_fen, Move::quiet_promotion(sq("h7"), sq("h8"), PromotionPieceKind::Bishop), "h8=B");
    test_san_string(promotion_fen, Move::quiet_promotion(sq("h7"), sq("h8"), PromotionPieceKind::Rook), "h8=R+");
    test_san_string(promotion_fen, Move::quiet_promotion(sq("h7"), sq("h8"), PromotionPieceKind::Queen), "h8=Q+");
}

#[test]
fn san_file_ambiguity() {
    let fen = "R6R/8/8/8/8/8/8/1k4K1 w - - 0 1";
    let game = Game::from_fen(fen).unwrap();
    let ambiguous_move = Move::new(sq("a8"), sq("b8"));

    assert_eq!(required_ambiguity_resolution(&game, ambiguous_move), AmbiguityResolution::File);

    test_san_string(fen, ambiguous_move, "Rab8+");
}

#[test]
fn san_rank_ambiguity() {
    let fen = "R7/8/8/8/8/1k4K1/8/R7 w - - 0 1";
    let game = Game::from_fen(fen).unwrap();
    let ambiguous_move = Move::new(sq("a1"), sq("a3"));

    assert_eq!(required_ambiguity_resolution(&game, ambiguous_move), AmbiguityResolution::Rank);

    test_san_string(fen, ambiguous_move, "R1a3+");
}

#[test]
fn san_exact_ambiguity() {
    let fen = "1k1K4/8/8/8/4Q2Q/8/8/7Q w - - 0 1";
    let game = Game::from_fen(fen).unwrap();
    let ambiguous_move = Move::new(sq("h4"), sq("e1"));

    assert_eq!(required_ambiguity_resolution(&game, ambiguous_move), AmbiguityResolution::Exact);

    test_san_string(fen, ambiguous_move, "Qh4e1");
}

#[test]
fn san_castling() {
    let fen = "1k6/8/8/8/8/8/8/R3K2R w KQ - 0 1";

    test_san_string(fen, Move::new(sq("e1"), sq("g1")), "O-O");
    test_san_string(fen, Move::new(sq("e1"), sq("c1")), "O-O-O");
}

#[test]
fn san_plus_for_check() {
    test_san_string(
        "k7/6P1/8/8/8/8/8/K7 w - - 0 1",
        Move::quiet_promotion(sq("g7"), sq("g8"), PromotionPieceKind::Queen),
        "g8=Q+",
    );
}
