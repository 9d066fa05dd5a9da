use chess_engine::chess::bitboard::Bitboard;
use chess_engine::chess::fen;
use chess_engine::chess::fen::parse;
use chess_engine::chess::game::Game;
use chess_engine::chess::movegen::gen::generate_moves;
use chess_engine::chess::movegen::pins::get_pins;
use chess_engine::chess::moves::Move;
use chess_engine::chess::piece::{PieceKind, PromotionPieceKind};
use chess_engine::chess::player::Player;
use chess_engine::chess::square::Square;

/// The square named like `e4`.
fn sq(name: &str) -> Square {
    let b = name.as_bytes();
    Square::from_idxs((b[0] - b'a') as usize, (b[1] - b'1') as usize)
}

fn bb(names: &[&str]) -> Bitboard {
    let mut b = Bitboard::empty();
    for n in names {
        b.set_inplace(sq(n));
    }
    b
}

#[test]
fn test_empty_bitboard_display() {
    let bitboard = Bitboard::empty();
    let formatted_bitboard = bitboard.to_string();

    assert_eq!(
        formatted_bitboard, ". . . . . . . .\n. . . . . . . .\n. . . . . . . .\n. . . . . . . .\n. . . . . . . .\n. . . . . . . .\n. . . . . . . .\n. . . . . . . ."
    );
}

#[test]
fn test_full_bitboard_display() {
    let bitboard = Bitboard::full();
    let formatted_bitboard = bitboard.to_string();

    assert_eq!(
        formatted_bitboard, "* * * * * * * *\n* * * * * * * *\n* * * * * * * *\n* * * * * * * *\n* * * * * * * *\n* * * * * * * *\n* * * * * * * *\n* * * * * * * *"
    );
}

#[test]
fn bitboard_size() {
    assert_eq!(std::mem::size_of::<Bitboard>(), std::mem::size_of::<u64>());
}

#[test]
fn test_flip_vertically() {
    let game =
        Game::from_fen("r3k2r/p1ppqpb1/bn2pnp1/3PN3/1p2P3/2N2Q1p/PPPBBPPP/R3K2R w KQkq -").unwrap();

    let our_flipped_board = game.board.flip_vertically();

    let flipped_kiwipete =
        Game::from_fen("R3K2R/PPPBBPPP/2N2Q1p/1p2P3/3PN3/bn2pnp1/p1ppqpb1/r3k2r w - - 0 1")
            .unwrap()
            .board;

    assert_eq!(
        our_flipped_board.occupancy_for(Player::White),
        flipped_kiwipete.occupancy_for(Player::White)
    );
    assert_eq!(
        our_flipped_board.occupancy_for(Player::Black),
        flipped_kiwipete.occupancy_for(Player::Black)
    );
    for kind in [
        PieceKind::Pawn,
        PieceKind::Knight,
        PieceKind::Bishop,
        PieceKind::Rook,
        PieceKind::Queen,
        PieceKind::King,
    ] {
        for player in [Player::White, Player::Black] {
            assert_eq!(
                our_flipped_board.pieces_of_kind(kind, player),
                flipped_kiwipete.pieces_of_kind(kind, player)
            );
        }
    }

    for i in 0..64u8 {
        let s = Square::from_index(i);
        assert_eq!(our_flipped_board.piece_at(s), flipped_kiwipete.piece_at(s));
    }
}

#[test]
fn parse_startpos() {
    let game_result = parse("rnbqkbnr/pppppppp/8/8/8/8/PPPPPPPP/RNBQKBNR w KQkq - 0 1");
    assert!(game_result.is_ok());

    let game = game_result.unwrap();
    let default_game = Game::new();

    for player in [Player::White, Player::Black] {
        assert_eq!(game.board.pawns(player), default_game.board.pawns(player));
        assert_eq!(game.board.knights(player), default_game.board.knights(player));
        assert_eq!(game.board.bishops(player), default_game.board.bishops(player));
        assert_eq!(game.board.rooks(player), default_game.board.rooks(player));
        assert_eq!(game.board.queens(player), default_game.board.queens(player));
        assert_eq!(game.board.king(player), default_game.board.king(player));
    }

    assert_eq!(game.plies, 0);
}

#[test]
fn parse_kiwipete() {
    assert!(parse("r3k2r/p1ppqpb1/bn2pnp1/3PN3/1p2P3/2N2Q1p/PPPBBPPP/R3K2R w KQkq - 0 1").is_ok());
}

#[test]
fn parse_kiwipete_without_halfmove_and_fullmove() {
    assert!(parse("r3k2r/p1ppqpb1/bn2pnp1/3PN3/1p2P3/2N2Q1p/PPPBBPPP/R3K2R w KQkq - ").is_ok());
}

#[test]
fn fen_errors_name_the_record_and_the_reason() {
    let e = parse("not a fen").err().unwrap();
    assert!(e.starts_with("Invalid FEN: not a fen ("));
    assert_eq!(e, "Invalid FEN: not a fen (cannot read the piece placement)");
    let e = parse("rnbqkbnr/pppppppp/8/8/8/8/PPPPPPPP/RNBQKBNR x KQkq - 0 1").err().unwrap();
    assert_eq!(e, "Invalid FEN: rnbqkbnr/pppppppp/8/8/8/8/PPPPPPPP/RNBQKBNR x KQkq - 0 1 (cannot read the side to move)");
    let e = parse("rnbqkbnr/pppppppp/8/8/8/8/PPPPPPPP/RNBQKBNR w KQkq - 0 0").err().unwrap();
    assert_eq!(e, "Invalid FEN: rnbqkbnr/pppppppp/8/8/8/8/PPPPPPPP/RNBQKBNR w KQkq - 0 0 (the fullmove number is out of range)");
    let g = parse("r3k2r/p1ppqpb1/bn2pnp1/3PN3/1p2P3/2N2Q1p/PPPBBPPP/R3K2R w KQkq - ").unwrap();
    assert_eq!(g.halfmove_clock, 0);
    assert_eq!(g.plies, 0);
}

#[test]
fn plies_from_fullmove_number() {
    assert_eq!(fen::plies_from_fullmove_number(1, Player::White), 0);
    assert_eq!(fen::plies_from_fullmove_number(1, Player::Black), 1);
    assert_eq!(fen::plies_from_fullmove_number(2, Player::White), 2);
    assert_eq!(fen::plies_from_fullmove_number(2, Player::Black), 3);
}

fn has_move(moves: &[Move], src: Square, dst: Square) -> bool {
    moves.iter().any(|m| m.src() == src && m.dst() == dst && m.promotion().is_none())
}

fn should_allow_move(fen: &str, squares: (Square, Square)) {
    let game = Game::from_fen(fen).unwrap();
    let moves = game.moves();
    let (src, dst) = squares;

    assert!(has_move(&moves, src, dst));
}

fn should_not_allow_move(fen: &str, squares: (Square, Square)) {
    let game = Game::from_fen(fen).unwrap();
    let moves = generate_moves::<true>(&game);
    let (src, dst) = squares;

    assert!(!has_move(&moves, src, dst));
}

#[test]
fn gen_test_simple_rook_move() {
    should_allow_move(
        "rnbqkbnr/1ppppppp/p7/8/8/P7/1PPPPPPP/RNBQKBNR w KQkq - 0 2",
        (sq("a1"), sq("a2")),
    );
}

#[test]
fn gen_test_simple_bishop_move() {
    let fen = "rnbqkbnr/1ppppp1p/p5p1/8/8/1P6/PBPPPPPP/RN1QKBNR w KQkq - 0 3";
    should_allow_move(fen, (sq("b2"), sq("c3")));
    should_allow_move(fen, (sq("b2"), sq("h8")));
}

#[test]
fn gen_test_cant_capture_own_king() {
    should_not_allow_move(
        "r3k2r/Pppp1ppp/1b3nbN/nP6/BBP1P3/q4N2/Pp1P2PP/R2Q1RK1 w kq - 0 1",
        (sq("f1"), sq("g1")),
    );
}

#[test]
fn gen_test_kiwipete_en_passant_bug() {
    should_allow_move(
        "r3k2r/p1ppqpb1/bn2pnp1/3PN3/Pp2P3/2N2Q1p/1PPBBPPP/R3K2R b KQkq a3 0 1",
        (sq("b4"), sq("a3")),
    );
}

#[test]
fn gen_test_pawn_push_along_pin_bug() {
    should_allow_move(
        "rnb1kbnr/pppp1ppp/4pq2/8/8/5P2/PPPPPKPP/RNBQ1BNR w kq - 2 3",
        (sq("f3"), sq("f4")),
    );
}

#[test]
fn test_forbid_en_passant_revealed_check() {
    should_not_allow_move("8/8/8/8/k2Pp2Q/8/8/3K4 b - d3 0 1", (sq("e4"), sq("d3")));
}

#[test]
fn test_forbid_pushing_pawn_into_pinning_piece() {
    should_not_allow_move(
        "rnbq2kr/pp1Pbppp/2p3Q1/8/2B5/8/PPP1NnPP/RNB1K2R b KQ - 4 9",
        (sq("f7"), sq("g6")),
    );
}

#[test]
fn gen_test_en_passant_bug_20230308() {
    should_allow_move(
        "rnbqkbnr/2pppppp/p7/Pp6/8/8/1PPPPPPP/RNBQKBNR w KQkq b6 0 3",
        (sq("a5"), sq("b6")),
    );
}

fn pin_test(fen: &'static str, expected_orthogonal_pins: Bitboard, expected_diagonal_pins: Bitboard) {
    let game = Game::from_fen(fen).unwrap();

    let king_square = game.board.king(game.player).single();
    let (orthogonal_pins, diagonal_pins) = get_pins(&game.board, game.player, king_square);

    assert_eq!(orthogonal_pins, expected_orthogonal_pins);
    assert_eq!(diagonal_pins, expected_diagonal_pins);
}

#[test]
fn test_pin_in_gist_8_depth_3() {
    pin_test(
        "rnbq1k1r/pp1P1ppp/2p5/8/1bB5/8/PPPNNnPP/R1BQK2R w KQ - 3 9",
        Bitboard::empty(),
        bb(&["b4", "c3", "d2"]),
    );
}

#[test]
fn check_move_size() {
    assert_eq!(std::mem::size_of::<Move>(), 2);
}

#[test]
fn test_quiet() {
    let mv = Move::quiet(sq("a1"), sq("b1"));
    assert_eq!(mv.src(), sq("a1"));
    assert_eq!(mv.dst(), sq("b1"));
    assert!(mv.promotion().is_none());
    assert!(!mv.is_capture());
    assert!(!mv.is_castling());
    assert!(!mv.is_en_passant());
}

#[test]
fn test_quiet_promotion() {
    let mv = Move::quiet_promotion(sq("a1"), sq("b1"), PromotionPieceKind::Queen);
    assert_eq!(mv.promotion(), Some(PromotionPieceKind::Queen));
    assert!(!mv.is_capture());
    assert!(!mv.is_castling());
    assert!(!mv.is_en_passant());
}

#[test]
fn test_capture() {
    let mv = Move::capture(sq("a1"), sq("b1"));
    assert!(mv.promotion().is_none());
    assert!(mv.is_capture());
    assert!(!mv.is_castling());
    assert!(!mv.is_en_passant());
}

#[test]
fn test_capture_promotion() {
    let mv = Move::capture_promotion(sq("a1"), sq("b1"), PromotionPieceKind::Queen);
    assert_eq!(mv.promotion(), Some(PromotionPieceKind::Queen));
    assert!(mv.is_capture());
    assert!(!mv.is_castling());
    assert!(!mv.is_en_passant());
}

#[test]
fn test_castles() {
    let mv = Move::castles(sq("a1"), sq("b1"));
    assert!(mv.promotion().is_none());
    assert!(!mv.is_capture());
    assert!(mv.is_castling());
    assert!(!mv.is_en_passant());
}

#[test]
fn test_en_passant() {
    let mv = Move::en_passant(sq("a1"), sq("b1"));
    assert!(mv.promotion().is_none());
    assert!(mv.is_capture());
    assert!(!mv.is_castling());
    assert!(mv.is_en_passant());
}

#[test]
fn promotions_come_queen_rook_knight_bishop() {
    let game = Game::from_fen("k7/7P/8/8/8/8/8/7K w - - 0 1").unwrap();
    let all = generate_moves::<true>(&game);
    let from_h7: Vec<Move> = all.into_iter().filter(|m| m.src() == sq("h7")).collect();
    assert_eq!(from_h7.len(), 4);
    assert!(from_h7.iter().all(|m| m.dst() == sq("h8")));
    let kinds: Vec<Option<PromotionPieceKind>> = from_h7.iter().map(|m| m.promotion()).collect();
    assert_eq!(kinds, vec![
        Some(PromotionPieceKind::Queen),
        Some(PromotionPieceKind::Rook),
        Some(PromotionPieceKind::Knight),
        Some(PromotionPieceKind::Bishop),
    ]);
    let loud = generate_moves::<false>(&game);
    let from_h7: Vec<Move> = loud.into_iter().filter(|m| m.src() == sq("h7")).collect();
    assert_eq!(from_h7.len(), 1);
    assert_eq!(from_h7[0].promotion(), Some(PromotionPieceKind::Queen));
}
