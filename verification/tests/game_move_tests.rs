use arrayvec::ArrayString;
use my_chess_ql::constants::PieceType;
use my_chess_ql::game_move::GameMove;
use my_chess_ql::game_move_list::GameMoveList;

fn game_move(piece: PieceType, source_square: u8, target_square: u8, promotion_piece: PieceType, is_capture: bool) -> GameMove {
    GameMove { piece, source_square, target_square, promotion_piece, is_capture, extended_move_san: ArrayString::new() }
}

#[test]
fn test_game_move_extended_san_notation() {
    let mut g = game_move(PieceType::KNIGHT, 6, 21, PieceType::NONE, false);
    g.set_extended_san_move_string();
    assert_eq!(g.extended_move_san.as_str(), "Ng1f3");

    g = game_move(PieceType::BISHOP, 0, 63, PieceType::NONE, true);
    g.set_extended_san_move_string();
    assert_eq!(g.extended_move_san.as_str(), "Ba1xh8");

    g = game_move(PieceType::PAWN, 53, 62, PieceType::KNIGHT, true);
    g.set_extended_san_move_string();
    assert_eq!(g.extended_move_san.as_str(), "Pf7xg8=N");
}

#[test]
fn test_game_move_partial_san_match() {
    let mut g = game_move(PieceType::KNIGHT, 6, 21, PieceType::NONE, false);
    // Ng1f3
    assert_eq!(g.is_partial_san_match("Ng1f3"), true);
    assert_eq!(g.is_partial_san_match("Ng1xf3"), false);
    assert_eq!(g.is_partial_san_match("Nf3"), true);
    assert_eq!(g.is_partial_san_match("Ng1f3"), true);
    assert_eq!(g.is_partial_san_match("Ngf3"), true);
    assert_eq!(g.is_partial_san_match("N1f3"), true);
    assert_eq!(g.is_partial_san_match("f3"), false);
    assert_eq!(g.is_partial_san_match("Nf3+"), true);
    assert_eq!(g.is_partial_san_match("Ngf3#"), true);
    assert_eq!(g.is_partial_san_match("N1f3#"), true);
    assert_eq!(g.is_partial_san_match("Nh3"), false);

    g = game_move(PieceType::BISHOP, 0, 63, PieceType::NONE, true);
    // "Ba1xh8"
    assert_eq!(g.is_partial_san_match("Ba1xh8"), true);
    assert_eq!(g.is_partial_san_match("Ba1h8"), true);
    assert_eq!(g.is_partial_san_match("Baxh8"), true);
    assert_eq!(g.is_partial_san_match("Bah8"), true);
    assert_eq!(g.is_partial_san_match("B1xh8"), true);
    assert_eq!(g.is_partial_san_match("B1xh8#"), true);
    assert_eq!(g.is_partial_san_match("1xh8"), false);

    g = game_move(PieceType::PAWN, 53, 62, PieceType::KNIGHT, true);
    // Pf7xg8=N
    assert_eq!(g.is_partial_san_match("Pf7xg8=N"), true);
    assert_eq!(g.is_partial_san_match("Pf7xg8=B"), false);
    assert_eq!(g.is_partial_san_match("Pf7xg8=Q"), false);
    assert_eq!(g.is_partial_san_match("Pxg8=N"), true);
    assert_eq!(g.is_partial_san_match("Pg8=N"), true);
    assert_eq!(g.is_partial_san_match("Pg8"), false);
    assert_eq!(g.is_partial_san_match("g8"), false);
    assert_eq!(g.is_partial_san_match("g8=N"), true);
    assert_eq!(g.is_partial_san_match("g7=N"), false);

    g = game_move(PieceType::KING, 4, 2, PieceType::NONE, false);
    // O-O-O
    assert_eq!(g.is_partial_san_match("O-O-O"), true);
    assert_eq!(g.is_partial_san_match("O-O"), false);
    assert_eq!(g.is_partial_san_match("O-O-O+"), true);
}

#[test]
fn castling_notation_kingside() {
    let mut g = game_move(PieceType::KING, 4, 6, PieceType::NONE, false);
    g.set_extended_san_move_string();
    assert_eq!(g.extended_move_san.as_str(), "O-O");
    assert_eq!(g.is_partial_san_match("O-O"), true);
    assert_eq!(g.is_partial_san_match("O-O-O"), false);
}

#[test]
fn partial_san_outcome_reports_overrun() {
    // The full notation Ng1f3 runs out when the partial notation names more source squares
    let mut g = game_move(PieceType::KNIGHT, 6, 21, PieceType::NONE, false);
    assert_eq!(g.partial_san_outcome("Ng1g1f3"), None);
    assert_eq!(g.partial_san_outcome("Nf3"), Some(true));
    assert_eq!(g.partial_san_outcome("Ne3"), Some(false));
}

#[test]
fn uci_notation_of_moves() {
    assert_eq!(game_move(PieceType::PAWN, 12, 28, PieceType::NONE, false).get_uci_move_string(), "e2e4");
    assert_eq!(game_move(PieceType::PAWN, 53, 62, PieceType::KNIGHT, true).get_uci_move_string(), "f7g8n");
    assert_eq!(game_move(PieceType::PAWN, 48, 56, PieceType::QUEEN, false).get_uci_move_string(), "a7a8q");
    assert_eq!(GameMove::get_piece_type_letter(PieceType::ROOK), 'R');
    assert_eq!(GameMove::get_piece_type_letter(PieceType::NONE), '?');
}

#[test]
fn move_list_text_is_sorted() {
    let mut list = GameMoveList::default();
    list.add_move(PieceType::PAWN, 12, 28, false, PieceType::NONE);
    list.add_move(PieceType::KNIGHT, 6, 21, false, PieceType::NONE);
    list.add_move(PieceType::PAWN, 8, 16, false, PieceType::NONE);
    assert_eq!(list.list_len, 3);
    assert_eq!(list.move_list_string(), "a2a3 e2e4 g1f3");
    list.clear();
    assert_eq!(list.list_len, 0);
    assert_eq!(list.move_list_string(), "");
}

#[test]
fn moves_found_by_notation() {
    let mut list = GameMoveList::default();
    list.add_move(PieceType::PAWN, 12, 28, false, PieceType::NONE);
    list.add_move(PieceType::KNIGHT, 6, 21, false, PieceType::NONE);
    let found = list.get_move_by_partial_san("Nf3").unwrap();
    assert_eq!((found.piece, found.source_square, found.target_square), (PieceType::KNIGHT, 6, 21));
    assert!(list.get_move_by_partial_san("Nc3").is_none());

    let by_pattern = list.get_move_by_extended_san("^Ng1").unwrap().unwrap();
    assert_eq!(by_pattern.target_square, 21);
    assert!(list.get_move_by_extended_san("x").unwrap().is_none());
    assert!(list.get_move_by_extended_san("(").is_err());
}
