use my_chess_ql::uci::{parse_uci_command, UciCommand};

#[test]
fn simple_commands() {
    assert_eq!(parse_uci_command("uci"), Some(UciCommand::Uci));
    assert_eq!(parse_uci_command("isready"), Some(UciCommand::IsReady));
    assert_eq!(parse_uci_command("stop"), Some(UciCommand::Stop));
    assert_eq!(parse_uci_command("ucinewgame"), Some(UciCommand::UciNewGame));
    assert_eq!(parse_uci_command("go depth 5"), Some(UciCommand::Go));
    assert_eq!(parse_uci_command("quit"), Some(UciCommand::Quit));
    assert_eq!(parse_uci_command("debug on"), Some(UciCommand::Unknown));
}

#[test]
fn empty_command_is_none() {
    assert_eq!(parse_uci_command(""), None);
    assert_eq!(parse_uci_command("   "), None);
}

#[test]
fn position_commands() {
    assert_eq!(
        parse_uci_command("position fen rnbqkbnr/pppppppp/8/8/4P3/8/PPPP1PPP/RNBQKBNR b KQkq e3 0 1"),
        Some(UciCommand::Position(Some("rnbqkbnr/pppppppp/8/8/4P3/8/PPPP1PPP/RNBQKBNR b KQkq e3 0 1".to_string())))
    );
    assert_eq!(parse_uci_command("position  fen   8/8/8/8/8/8/8/K6k w - - 0 1"), Some(UciCommand::Position(Some("8/8/8/8/8/8/8/K6k w - - 0 1".to_string()))));
    assert_eq!(parse_uci_command("position startpos"), Some(UciCommand::Position(None)));
}
