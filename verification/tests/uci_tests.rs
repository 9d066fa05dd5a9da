use chess_engine::engine::uci::commands::UciCommand;
use chess_engine::engine::uci::parser::parse;

#[test]
fn parse_go_infinite() {
    assert!(parse("go infinite").is_ok());
}

#[test]
fn test_uci() {
    let ml = parse("uci").unwrap();
    assert_eq!(ml, UciCommand::Uci);
}

#[test]
fn test_debug_on() {
    let ml = parse("debug    on").unwrap();
    assert_eq!(ml, UciCommand::Debug(true));
}

#[test]
fn test_debug_off() {
    let ml = parse("debug off").unwrap();
    assert_eq!(ml, UciCommand::Debug(false));
}

#[test]
fn test_debugon() {
    let _unused = parse("debugon").expect_err("Should not parse 'debugon'");
}

#[test]
fn test_debug_wrong_param() {
    let ml = parse("debug abc");
    assert!(ml.is_err());
}

#[test]
fn test_debug_cutoff() {
    let _unused = parse("debug    ontario").expect_err("Should not parse");
}

#[test]
fn test_isready() {
    let ml = parse(" \tisready  ").unwrap();
    assert_eq!(ml, UciCommand::IsReady);
}

#[test]
fn test_position_fen() {
    let ml = parse("position fen 6r1/p2p4/3Ppk2/p1R2p2/8/3b4/1r6/4K3 b - - 5 45");
    assert!(ml.is_ok());
}

#[test]
fn test_position_fen_then_moves() {
    let ml = parse("position fen 6r1/p2p4/3Ppk2/p1R2p2/8/3b4/1r6/4K3 b - - 5 45 moves a7a6 c1d1");
    assert!(ml.is_ok());
}
