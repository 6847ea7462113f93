use std::collections::VecDeque;
use my_chess_ql::pgn::{PGNReader, PgnError, PgnGameState, PgnLineOutcome, PgnPlyOutcome};

#[test]
fn test_parse_pgn_header() {
    let (key, value) = PGNReader::parse_pgn_header("[White \"Fischer, Robert J.\"]").unwrap();
    assert_eq!(key, "White");
    assert_eq!(value, "Fischer, Robert J.");

    let (key, value) = PGNReader::parse_pgn_header("[WhiteElo \"2850\"]").unwrap();
    assert_eq!(key, "WhiteElo");
    assert_eq!(value, "2850");
}

fn test_parse_game_moves_helper(game_move_str: &str, game_result: &str) -> String {
    let mut game_moves: VecDeque<String> = VecDeque::with_capacity(256);
    PGNReader::parse_pgn_game_moves(game_move_str, game_result, &mut game_moves);
    format!("{:?}", game_moves)
}

#[test]
fn test_parse_pgn_game_moves() {
    assert_eq!(
        test_parse_game_moves_helper("1. e4 e5 2. Nf3 Nc6 3. Bb5 a6 {This opening is called the Ruy Lopez.} 4. Ba4 Nf6 5. O-O Be7 6. Re1 b5 7. Bb3 d6 8. c3 O-O-O  1/2-1/2 ;9. h3 Nb8 10. d4 Nbd7", "1/2-1/2"),
        "[\"e4\", \"e5\", \"Nf3\", \"Nc6\", \"Bb5\", \"a6\", \"Ba4\", \"Nf6\", \"O-O\", \"Be7\", \"Re1\", \"b5\", \"Bb3\", \"d6\", \"c3\", \"O-O-O\"]"
    );

    assert_eq!(
        test_parse_game_moves_helper("1. e4 e5 2. O-O-O ...  0-1 ;a comment goes here", "0-1"),
        "[\"e4\", \"e5\", \"O-O-O\"]"
    );

    assert_eq!(
        test_parse_game_moves_helper("1. Nf3 Nf6 2. c4 e6 3. Nc3 Bb4 4. Qc2 O-O 5. a3 Bxc3 6. Qxc3 b6 7. e3 Bb7 8. Be2 d6 9. O-O Nbd7 10. b4 e5 11. Bb2 Re8 12. d3 c5 13. Rae1 Rc8 14. b5 d5 15. cxd5 Nxd5 16. Qb3 Qf6 17. Nd2 Nc7 18. f4 Qg6 19. e4 exf4 20. Rxf4 Ne6 21. Rf5 Qh6 22. Nc4 Nd4 23. Bxd4 cxd4 24. Rxf7 Nc5 25. Qa2 Bd5 26. Rxa7 ( 26. Rf2 ) 26... Be6 27. Bf1 Rf8 28. Qd2 Qh4 29. g3 Qd8 30. Ne5 Nb3 31. Qb2 Rc3 32. Nc6 Qg5 33. Ne7+ Kh8 34. Nd5 Nd2 35. Bg2 Rxd3 36. Nf4 Rxf4 37. gxf4 $4 ( 37. Ra8+ Bg8 38. Qa2 ) 37... Nf3+ 38. Kh1 Qh4 39. Ra8+ Bg8 40. Rxg8+ Kxg8  0-1", "0-1"),
        "[\"Nf3\", \"Nf6\", \"c4\", \"e6\", \"Nc3\", \"Bb4\", \"Qc2\", \"O-O\", \"a3\", \"Bxc3\", \"Qxc3\", \"b6\", \"e3\", \"Bb7\", \"Be2\", \"d6\", \"O-O\", \"Nbd7\", \"b4\", \"e5\", \"Bb2\", \"Re8\", \"d3\", \"c5\", \"Rae1\", \"Rc8\", \"b5\", \"d5\", \"cxd5\", \"Nxd5\", \"Qb3\", \"Qf6\", \"Nd2\", \"Nc7\", \"f4\", \"Qg6\", \"e4\", \"exf4\", \"Rxf4\", \"Ne6\", \"Rf5\", \"Qh6\", \"Nc4\", \"Nd4\", \"Bxd4\", \"cxd4\", \"Rxf7\", \"Nc5\", \"Qa2\", \"Bd5\", \"Rxa7\", \"Be6\", \"Bf1\", \"Rf8\", \"Qd2\", \"Qh4\", \"g3\", \"Qd8\", \"Ne5\", \"Nb3\", \"Qb2\", \"Rc3\", \"Nc6\", \"Qg5\", \"Ne7+\", \"Kh8\", \"Nd5\", \"Nd2\", \"Bg2\", \"Rxd3\", \"Nf4\", \"Rxf4\", \"gxf4\", \"Nf3+\", \"Kh1\", \"Qh4\", \"Ra8+\", \"Bg8\", \"Rxg8+\", \"Kxg8\"]"
    );

    assert_eq!(
        test_parse_game_moves_helper("1. e4 c5 2. Nf3 e6 3. b3 Nc6 4. Bb2 d5 5. exd5 exd5 6. Bb5 Nf6 7. O-O Be7 8. Ne5 Qc7 9. Re1 O-O 10. Nxc6 bxc6 11. Be2 Ne4 12. Bf3 f5 13. d3 Bd6 14. dxe4 Bxh2+ 15. Kh1 Qf4 ( 15... fxe4 16. Bxe4 dxe4 17. Nd2 Qd6 18. Qh5 ) 16. exd5 ( 16. g3 Qh6 17. Bc1 f4 18. Bh5 Qe6 19. Bg4 ( 19. g4 Qf6 20. Kxh2 Qh4+ ( 20... Qxa1 ) 21. Kg1 f3 22. Qd3 Bxg4 23. exd5 ) 19... Qe5 20. Bxc8 fxg3 21. exd5 Qxa1 22. Be6+ Kh8 23. Be3 gxf2 24. Rf1 ) 16... Qh4 17. Na3 Be5+ 18. Kg1 Qh2+ 19. Kf1 Bxb2 20. Nc4 Bxa1 21. Qxa1 Qh1+ 22. Ke2 Re8+ 23. Kd2 Qh6+ 24. Re3 Bb7 25. d6 Rad8 26. Qe1 Ba6 27. Kc3 Qf6+ 28. Kd2 Qd4+  0-1", "0-1"),
        "[\"e4\", \"c5\", \"Nf3\", \"e6\", \"b3\", \"Nc6\", \"Bb2\", \"d5\", \"exd5\", \"exd5\", \"Bb5\", \"Nf6\", \"O-O\", \"Be7\", \"Ne5\", \"Qc7\", \"Re1\", \"O-O\", \"Nxc6\", \"bxc6\", \"Be2\", \"Ne4\", \"Bf3\", \"f5\", \"d3\", \"Bd6\", \"dxe4\", \"Bxh2+\", \"Kh1\", \"Qf4\", \"exd5\", \"Qh4\", \"Na3\", \"Be5+\", \"Kg1\", \"Qh2+\", \"Kf1\", \"Bxb2\", \"Nc4\", \"Bxa1\", \"Qxa1\", \"Qh1+\", \"Ke2\", \"Re8+\", \"Kd2\", \"Qh6+\", \"Re3\", \"Bb7\", \"d6\", \"Rad8\", \"Qe1\", \"Ba6\", \"Kc3\", \"Qf6+\", \"Kd2\", \"Qd4+\"]"
    );
}

#[test]
fn header_record_without_space_is_refused() {
    assert_eq!(PGNReader::parse_pgn_header("[Event]"), Err(PgnError::InvalidHeaderRecord));
}

#[test]
fn game_results_scored_for_white() {
    assert_eq!(PGNReader::parse_pgn_game_result("1-0"), 1);
    assert_eq!(PGNReader::parse_pgn_game_result("0-1"), -1);
    assert_eq!(PGNReader::parse_pgn_game_result("1/2-1/2"), 0);
    assert_eq!(PGNReader::parse_pgn_game_result("*"), 0);
}

#[test]
fn moves_appended_to_earlier_ones() {
    let mut game_moves: VecDeque<String> = VecDeque::new();
    PGNReader::parse_pgn_game_moves("1. d4 d5", "1-0", &mut game_moves);
    PGNReader::parse_pgn_game_moves("2. c4 e6 1-0", "1-0", &mut game_moves);
    assert_eq!(format!("{:?}", game_moves), "[\"d4\", \"d5\", \"c4\", \"e6\"]");
}

#[test]
fn a_game_read_line_by_line() {
    let mut game = PgnGameState::new().unwrap();
    assert_eq!(PGNReader::process_pgn_line(&mut game, "[Event \"Test\"]"), PgnLineOutcome::Continue);
    assert_eq!(PGNReader::process_pgn_line(&mut game, "[WhiteElo \"2300\"]"), PgnLineOutcome::Continue);
    assert_eq!(PGNReader::process_pgn_line(&mut game, "[BlackElo \"2100\"]"), PgnLineOutcome::Continue);
    assert_eq!(PGNReader::process_pgn_line(&mut game, "[Result \"1-0\"]"), PgnLineOutcome::Continue);
    assert_eq!(PGNReader::process_pgn_line(&mut game, ""), PgnLineOutcome::Continue);
    assert_eq!(PGNReader::process_pgn_line(&mut game, "1. e4 e5 2. Nf3"), PgnLineOutcome::Continue);
    assert_eq!(PGNReader::process_pgn_line(&mut game, "Nc6 1-0"), PgnLineOutcome::Continue);
    assert_eq!(game.white_elo, 2300);
    assert_eq!(game.black_elo, 2100);
    assert_eq!(PGNReader::process_pgn_line(&mut game, ""), PgnLineOutcome::GameEnded);

    let (_position, moves, result, white_min_elo, black_min_elo) = PGNReader::finish_pgn_game(game).unwrap();
    assert_eq!(format!("{:?}", moves), "[\"e4\", \"e5\", \"Nf3\", \"Nc6\"]");
    assert_eq!(result, 1);
    assert!(white_min_elo);
    assert!(!black_min_elo);
}

#[test]
fn a_game_of_low_rated_players_is_not_kept() {
    let mut game = PgnGameState::new().unwrap();
    PGNReader::process_pgn_line(&mut game, "[WhiteElo \"1800\"]");
    PGNReader::process_pgn_line(&mut game, "[BlackElo \"1900\"]");
    PGNReader::process_pgn_line(&mut game, "1. e4 e5 1/2-1/2");
    assert!(PGNReader::finish_pgn_game(game).is_none());
}

#[test]
fn unreadable_rating_fails_the_line() {
    let mut game = PgnGameState::new().unwrap();
    assert_eq!(PGNReader::process_pgn_line(&mut game, "[WhiteElo \"abc\"]"), PgnLineOutcome::Failed);
    assert_eq!(PGNReader::process_pgn_line(&mut game, "[NoSpace]"), PgnLineOutcome::Failed);
}

#[test]
fn a_game_played_through() {
    let mut game = PgnGameState::new().unwrap();
    PGNReader::process_pgn_line(&mut game, "[WhiteElo \"2400\"]");
    PGNReader::process_pgn_line(&mut game, "1. e4 e5 2. Nf3 Nc6 1-0");
    let pgn_game = PGNReader::finish_pgn_game(game).unwrap();

    let mut reader = PGNReader::new().unwrap();
    assert!(reader.needs_new_pgn_game());
    reader.load_pgn_game(pgn_game);
    assert!(!reader.needs_new_pgn_game());
    // The starting position, white to move (rated): e4 is played next
    assert_eq!(reader.play_pgn_position(false), PgnPlyOutcome::Ready(true));
    assert_eq!(reader.pgn_next_move_played.get_uci_move_string(), "e2e4");
    // After e4, black to move (not rated)
    assert_eq!(reader.play_pgn_position(true), PgnPlyOutcome::Ready(false));
    assert_eq!(reader.pgn_next_move_played.get_uci_move_string(), "e7e5");
}

#[test]
fn a_move_that_no_legal_move_matches() {
    let mut game = PgnGameState::new().unwrap();
    PGNReader::process_pgn_line(&mut game, "[BlackElo \"2500\"]");
    PGNReader::process_pgn_line(&mut game, "1. Qh5 e5 0-1");
    let pgn_game = PGNReader::finish_pgn_game(game).unwrap();

    let mut reader = PGNReader::new().unwrap();
    reader.load_pgn_game(pgn_game);
    // The queen cannot reach h5 from the starting position
    assert_eq!(reader.play_pgn_position(false), PgnPlyOutcome::MoveNotFound);
}
