use my_chess_ql::stockfish::StockfishInterface;

#[test]
fn perft_answer_read_line_by_line() {
    let mut moves: Vec<String> = Vec::new();
    assert!(!StockfishInterface::stockfish_perft_line(&mut moves, "info string NNUE evaluation enabled\n"));
    assert!(!StockfishInterface::stockfish_perft_line(&mut moves, "e2e4: 1\n"));
    assert!(!StockfishInterface::stockfish_perft_line(&mut moves, "a7a8q: 1\n"));
    assert!(!StockfishInterface::stockfish_perft_line(&mut moves, "b1c3: 1\n"));
    assert!(!StockfishInterface::stockfish_perft_line(&mut moves, "\n"));
    assert!(StockfishInterface::stockfish_perft_line(&mut moves, "Nodes searched: 3\n"));
    assert_eq!(moves, vec!["e2e4".to_string(), "a7a8q".to_string(), "b1c3".to_string()]);
    assert_eq!(StockfishInterface::stockfish_move_list(&moves), ("a7a8q b1c3 e2e4".to_string(), 3));
}

#[test]
fn move_must_start_the_line() {
    let mut moves: Vec<String> = Vec::new();
    assert!(!StockfishInterface::stockfish_perft_line(&mut moves, "bestmove e2e4\n"));
    assert!(moves.is_empty());
    assert_eq!(StockfishInterface::stockfish_move_list(&moves), (String::new(), 0));
}
