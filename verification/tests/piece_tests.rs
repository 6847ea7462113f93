use std::time::Instant;
use my_chess_ql::game_move_list::GameMoveList;
use my_chess_ql::legal_moves_helper::LegalMovesTestHelper;
use my_chess_ql::pieces::bishop::Bishop;
use my_chess_ql::pieces::king::King;
use my_chess_ql::pieces::knight::Knight;
use my_chess_ql::pieces::pawn::Pawn;
use my_chess_ql::pieces::queen::Queen;
use my_chess_ql::pieces::rook::Rook;
use my_chess_ql::king_attack_ray_analyzer::KingAttackRayAnalyzer;
use my_chess_ql::position::Position;
use my_chess_ql::position_helper::PositionHelper;

/// Attacked squares and movement squares of a movement result are the named ones.
fn check_attack_and_movement_squares(calc_movement_result: (u64, u64), expected_attack_squares: Vec<&str>, expected_movement_squares: Vec<&str>) {
    let (attacked_squares, movement_squares) = calc_movement_result;
    assert_eq!(attacked_squares, PositionHelper::bitboard_from_algebraic(expected_attack_squares));
    assert_eq!(movement_squares, PositionHelper::bitboard_from_algebraic(expected_movement_squares));
}

#[test]
fn test_calc_bishop_movements() {
    let (_, mut position, mut move_list, mut king_attack_analyzer, _) = LegalMovesTestHelper::init_test_position_from_fen_str(Some("r2q1rk1/pp2ppbp/2p2np1/2pPP1B1/8/Q5np/P1P2pP1/3RKB1R w - - 1 2"));
    check_attack_and_movement_squares(
        Bishop::calc_movements(&position, position.wb, &mut move_list, 0, &mut king_attack_analyzer),
        vec!["g2", "e2", "d3", "c4", "b5", "a6", "f6", "h6", "h4", "f4", "e3", "d2", "c1"],
        vec!["e2", "d3", "c4", "b5", "a6", "f6", "h6", "h4", "f4", "e3", "d2", "c1"]
    );

    LegalMovesTestHelper::switch_sides(&mut position, Some(&mut move_list), None);
    check_attack_and_movement_squares(
        Bishop::calc_movements(&position, position.bb, &mut move_list, 0, &mut king_attack_analyzer),
        vec!["f6", "f8", "h8", "h6"],
        vec!["h8", "h6"]
    );
}

#[test]
fn test_calc_rook_movements() {
    // 1. Starting position
    let (_, mut position, mut move_list, mut king_attack_analyzer, _) = LegalMovesTestHelper::init_test_position_from_fen_str(Some("8/8/2KB4/8/k7/8/Pb1r4/R2N4 w - - 1 2"));
    check_attack_and_movement_squares(
        Rook::calc_movements(&position, position.wr, &mut move_list, 0, &mut king_attack_analyzer),
        vec!["b1", "c1", "d1", "a2"],
        vec!["b1", "c1"]
    );

    LegalMovesTestHelper::switch_sides(&mut position, Some(&mut move_list), None);
    check_attack_and_movement_squares(
        Rook::calc_movements(&position, position.br, &mut move_list, 0, &mut king_attack_analyzer),
        vec!["d1", "c2", "b2", "e2", "f2", "h2", "g2", "d3", "d4", "d5", "d6"],
        vec!["d1", "c2", "e2", "f2", "h2", "g2", "d3", "d4", "d5", "d6"]
    );

    // 2. Position with friendly pieces in the way, one pawn to capture, one empty square that is enemy-controlled
    let (_, mut position, mut move_list, _, _) = LegalMovesTestHelper::init_test_position_from_fen_str(Some("r2q1rk1/pp2ppbp/2p2np1/2pPP1B1/8/Q5np/P1P2PP1/3RKB1R w KQkq - 1 2"));
    check_attack_and_movement_squares(
        Rook::calc_movements(&position, position.wr, &mut move_list, 0, &mut king_attack_analyzer),
        vec!["a1", "b1", "c1", "d2", "d3", "d4", "d5", "e1", "f1", "g1", "h2", "h3"],
        vec!["a1", "b1", "c1", "d2", "d3", "d4", "g1", "h2", "h3"]
    );

    LegalMovesTestHelper::switch_sides(&mut position, Some(&mut move_list), None);
    check_attack_and_movement_squares(
        Rook::calc_movements(&position, position.br, &mut move_list, 0, &mut king_attack_analyzer),
        vec!["a7", "b8", "c8", "d8", "e8", "f7", "g8"],
        vec!["b8", "c8", "e8"]
    );
}

#[test]
fn test_calc_queen_movements() {
    let (_, mut position, mut move_list, mut king_attack_analyzer, _) = LegalMovesTestHelper::init_test_position_from_fen_str(Some("r2q1rk1/pp2ppbp/2p2np1/2pPP1B1/8/Q5np/P1P2PP1/3RKB1R w - - 1 2"));
    check_attack_and_movement_squares(
        Queen::calc_movements(&position, position.wq, &mut move_list, 0, &mut king_attack_analyzer),
        vec!["c1", "a2", "b2", "b3", "c3", "d3", "e3", "f3", "g3", "a4", "b4", "a5", "c5", "a6", "a7"],
        vec!["c1", "b2", "b3", "c3", "d3", "e3", "f3", "g3", "a4", "b4", "a5", "c5", "a6", "a7"]
    );

    LegalMovesTestHelper::switch_sides(&mut position, Some(&mut move_list), None);
    check_attack_and_movement_squares(
        Queen::calc_movements(&position, position.bq, &mut move_list, 0, &mut king_attack_analyzer),
        vec!["a8", "f8", "e7", "b8", "c8", "e8", "a5", "b6", "c7", "d7", "d6", "d5"],
        vec!["b8", "c8", "e8", "a5", "b6", "c7", "d7", "d6", "d5"]
    );
}

#[test]
fn test_calc_knight_movements() {
    // 1. Starting position
    let (_, mut position, mut move_list, mut king_attack_analyzer, _) = LegalMovesTestHelper::init_test_position_from_fen_str(None);
    check_attack_and_movement_squares(
        Knight::calc_movements(&position, position.wn, &mut move_list, 0, &mut king_attack_analyzer),
        vec!["a3", "c3", "d2", "e2", "f3", "h3"],
        vec!["a3", "c3", "f3", "h3"]
    );

    LegalMovesTestHelper::switch_sides(&mut position, Some(&mut move_list), None);
    check_attack_and_movement_squares(
        Knight::calc_movements(&position, position.bn, &mut move_list, 0, &mut king_attack_analyzer),
        vec!["a6", "c6", "d7", "e7", "f6", "h6"],
        vec!["a6", "c6", "f6", "h6"]
    );

    // 2. Typical position with no pins
    let (_, mut position, mut move_list, _, _) = LegalMovesTestHelper::init_test_position_from_fen_str(Some("r2q1rk1/pp2ppbp/2p2np1/2pPP1B1/51b1/QN3N1P/P1P2PP1/3RKB1R w KQkq - 1 2"));
    check_attack_and_movement_squares(
        Knight::calc_movements(&position, position.wn, &mut move_list, 0, &mut king_attack_analyzer),
        vec!["a5", "c5", "d4", "d2", "c1", "a1", "e1", "g1", "h4", "h2", "e5", "g5"],
        vec!["a5", "c5", "d4", "d2", "c1", "a1", "g1", "h2", "h4"]
    );

    LegalMovesTestHelper::switch_sides(&mut position, Some(&mut move_list), None);
    check_attack_and_movement_squares(
        Knight::calc_movements(&position, position.bn, &mut move_list, 0, &mut king_attack_analyzer),
        vec!["e8", "g8", "d7", "h7", "g4", "e4", "d5", "h5"],
        vec!["e8", "d7", "e4", "d5", "h5"]
    );
}

#[test]
fn test_calc_knight_movements_benchmark() {
    let iterations = 100;
    let position = Position::from_fen(Some("r2q1rk1/pp2ppbp/2p2np1/2pPP1B1/51b1/QN3N1P/P1P2PP1/3RKB1R w KQkq b6 1 2")).unwrap();
    let mut move_list = GameMoveList::default();
    let mut king_attack_analyzer = KingAttackRayAnalyzer::default();
    let before = Instant::now();
    for _ in 0..iterations {
        move_list.clear();
        Knight::calc_movements(&position, position.wn, &mut move_list, 0, &mut king_attack_analyzer);
    }
    println!("Elapsed time: {:.2?}", before.elapsed());
}

#[test]
fn test_calc_pawn_movements() {
    // 1. Starting position
    let (_, mut position, mut move_list, mut king_attack_analyzer, _) = LegalMovesTestHelper::init_test_position_from_fen_str(None);
    check_attack_and_movement_squares(
        Pawn::calc_movements(&position, position.wp, &mut move_list, 0, &mut king_attack_analyzer),
        vec!["a3", "b3", "c3", "d3", "e3", "f3", "g3", "h3"],
        vec!["a3", "a4", "b3", "b4", "c3", "c4", "d3", "d4", "e3", "e4", "f3", "f4", "g3", "g4", "h3", "h4"]
    );

    LegalMovesTestHelper::switch_sides(&mut position, Some(&mut move_list), None);
    check_attack_and_movement_squares(
        Pawn::calc_movements(&position, position.bp, &mut move_list, 0, &mut king_attack_analyzer),
        vec!["a6", "b6", "c6", "d6", "e6", "f6", "g6", "h6"],
        vec!["a6", "a5", "b6", "b5", "c6", "c5", "d6", "d5", "e6", "e5", "f6", "f5", "g6", "g5", "h6", "h5"]
    );

    // 2. Typical position with no en-passant or pins
    let (_, mut position, mut move_list, _, _) = LegalMovesTestHelper::init_test_position_from_fen_str(Some("r2q1rk1/pp2ppbp/2p2np1/2pPP1B1/51b1/Q4N1P/P1P2PP1/3RKB1R w KQkq - 1 2"));
    check_attack_and_movement_squares(
        Pawn::calc_movements(&position, position.wp, &mut move_list, 0, &mut king_attack_analyzer),
        vec!["b3", "d3", "e3", "f3", "g3", "h3", "g4", "c6", "d6", "e6", "f6"],
        vec!["c3", "c4", "c6", "d6", "e6", "f6", "g3", "g4", "h4"]
    );

    LegalMovesTestHelper::switch_sides(&mut position, Some(&mut move_list), None);
    check_attack_and_movement_squares(
        Pawn::calc_movements(&position, position.bp, &mut move_list, 0, &mut king_attack_analyzer),
        vec!["a6", "b6", "c6", "d6", "e6", "f6", "g6", "b5", "d5", "f5", "h5", "b4", "d4"],
        vec!["a6", "a5", "b6", "b5", "c4", "d5", "e6", "h6", "h5"]
    );

    // 3. Position including en-passant on b6 square
    let (_, position, mut move_list, _, _) = LegalMovesTestHelper::init_test_position_from_fen_str(Some("r2q1rk1/pP2ppbp/2p2np1/PpPPP1B1/51b1/Q4N1P/5PP1/3RKB1R w KQkq b6 1 2"));
    check_attack_and_movement_squares(
        Pawn::calc_movements(&position, position.wp, &mut move_list, 0, &mut king_attack_analyzer),
        vec!["b6", "c6", "d6", "e6", "f6", "a8", "c8", "e3", "f3", "g3", "h3", "g4"],
        vec!["a6", "b6", "a8", "b8", "c6", "d6", "e6", "f6", "g3", "g4", "h4"]
    );
}

#[test]
fn test_calc_pawn_movements_benchmark() {
    let iterations = 100;
    let position = Position::from_fen(Some("r2q1rk1/pP2ppbp/2p2np1/PpPPP1B1/51b1/Q4N1P/5PP1/3RKB1R w KQkq b6 1 2")).unwrap();
    let mut king_attack_analyzer = KingAttackRayAnalyzer::default();
    let mut move_list = GameMoveList::default();
    let before = Instant::now();
    for _ in 0..iterations {
        move_list.clear();
        Pawn::calc_movements(&position, position.wp, &mut move_list, 0, &mut king_attack_analyzer);
    }
    println!("Elapsed time: {:.2?}", before.elapsed());
}

#[test]
fn test_calc_king_movements() {
    // 1. Starting position
    let (enemy_attacked_squares, mut position, mut move_list, mut king_attack_analyzer, _) = LegalMovesTestHelper::init_test_position_from_fen_str(None);
    check_attack_and_movement_squares(
        King::calc_movements(&position, position.wk, &mut move_list, enemy_attacked_squares, &mut king_attack_analyzer),
        vec!["d1", "d2", "e2", "f2", "f1"],
        vec![]
    );

    let enemy_attacked_squares = LegalMovesTestHelper::switch_sides(&mut position, Some(&mut move_list), Some(&mut king_attack_analyzer));
    check_attack_and_movement_squares(
        King::calc_movements(&position, position.bk, &mut move_list, enemy_attacked_squares, &mut king_attack_analyzer),
        vec!["d8", "d7", "e7", "f7", "f8"],
        vec![]
    );

    // 2. Position with friendly pieces in the way, one pawn to capture, one empty square that is enemy-controlled
    let (enemy_attacked_squares, mut position, mut move_list, mut king_attack_analyzer, _) = LegalMovesTestHelper::init_test_position_from_fen_str(Some("r2q1rk1/pp2ppbp/2p2np1/2pPP1B1/8/Q5nP/P1P2pP1/3RKB1R w KQkq - 1 2"));
    check_attack_and_movement_squares(
        King::calc_movements(&position, position.wk, &mut move_list, enemy_attacked_squares, &mut king_attack_analyzer),
        vec!["d1", "d2", "e2", "f2", "f1"],
        vec!["d2", "f2"]
    );
    assert!(LegalMovesTestHelper::check_king_attack_analysis(
        &king_attack_analyzer,
        [u64::MAX; 64],
        PositionHelper::bitboard_from_algebraic(vec!["f2"]),
        1,
        false
    ));

    let enemy_attacked_squares = LegalMovesTestHelper::switch_sides(&mut position, Some(&mut move_list), Some(&mut king_attack_analyzer));
    check_attack_and_movement_squares(
        King::calc_movements(&position, position.bk, &mut move_list, enemy_attacked_squares, &mut king_attack_analyzer),
        vec!["f8", "f7", "g7", "h7", "h8"],
        vec!["h8"]
    );
    assert!(LegalMovesTestHelper::check_king_attack_analysis(
        &king_attack_analyzer,
        [u64::MAX; 64],
        u64::MAX,
        0,
        false
    ));

    // 3. Position with rook and enemy king where king cannot escape to a hidden square along the sliding attack ray
    let (enemy_attacked_squares, position, mut move_list, mut king_attack_analyzer, _) = LegalMovesTestHelper::init_test_position_from_fen_str(Some("8/4k3/8/8/4R3/8/8/4K3 b KQkq - 1 2"));
    check_attack_and_movement_squares(
        King::calc_movements(&position, position.bk, &mut move_list, enemy_attacked_squares, &mut king_attack_analyzer),
        vec!["d8", "d7", "d6", "f8", "f7", "f6", "e6", "e8"],
        vec!["d8", "d7", "d6", "f8", "f7", "f6"]
    );
    assert!(LegalMovesTestHelper::check_king_attack_analysis(
        &king_attack_analyzer,
        [u64::MAX; 64],
        PositionHelper::bitboard_from_algebraic(vec!["e4", "e5", "e6"]),
        1,
        false
    ));
}

#[test]
#[allow(non_snake_case)]
fn King_test_castling() {
    // 1. Position with both sides having castling rights, black king in check, black bishop controlling
    // one of white's kingside castling squares
    let (enemy_attacked_squares, mut position, mut move_list, mut king_attack_analyzer, _) = LegalMovesTestHelper::init_test_position_from_fen_str(Some("r3k2r/8/8/8/8/3bQ3/8/R3K2R w KQkq - 1 2"));
    check_attack_and_movement_squares(
        King::calc_movements(&position, position.wk, &mut move_list, enemy_attacked_squares, &mut king_attack_analyzer),
        vec!["d1", "d2", "e2", "f2", "f1"],
        vec!["d1", "d2", "f2", "c1"]
    );
    assert!(LegalMovesTestHelper::check_king_attack_analysis(
        &king_attack_analyzer,
        [u64::MAX; 64],
        u64::MAX,
        0,
        false
    ));

    let enemy_attacked_squares = LegalMovesTestHelper::switch_sides(&mut position, Some(&mut move_list), Some(&mut king_attack_analyzer));
    position.king_in_check = true;
    check_attack_and_movement_squares(
        King::calc_movements(&position, position.bk, &mut move_list, enemy_attacked_squares, &mut king_attack_analyzer),
        vec!["f8", "f7", "e7", "d7", "d8"],
        vec!["d8", "d7", "f8", "f7"]
    );
    assert!(LegalMovesTestHelper::check_king_attack_analysis(
        &king_attack_analyzer,
        [u64::MAX; 64],
        PositionHelper::bitboard_from_algebraic(vec!["e3", "e4", "e5", "e6", "e7"]),
        1,
        false
    ));

    // 2. More complicated position
    let (enemy_attacked_squares, mut position, mut move_list, mut king_attack_analyzer, _) = LegalMovesTestHelper::init_test_position_from_fen_str(Some("r3k1nr/8/8/8/3bb3/8/8/R3K2R w KQkq - 1 2"));
    check_attack_and_movement_squares(
        King::calc_movements(&position, position.wk, &mut move_list, enemy_attacked_squares, &mut king_attack_analyzer),
        vec!["d1", "d2", "e2", "f2", "f1"],
        vec!["d1", "d2", "e2", "f1", "c1"]
    );

    let enemy_attacked_squares = LegalMovesTestHelper::switch_sides(&mut position, Some(&mut move_list), Some(&mut king_attack_analyzer));
    check_attack_and_movement_squares(
        King::calc_movements(&position, position.bk, &mut move_list, enemy_attacked_squares, &mut king_attack_analyzer),
        vec!["f8", "f7", "e7", "d7", "d8"],
        vec!["f8", "f7", "e7", "d7", "d8", "c8"]
    );
}

#[test]
fn no_queen_side_castling_past_a_knight() {
    let (enemy_attacked_squares, position, mut move_list, mut king_attack_analyzer, _) = LegalMovesTestHelper::init_test_position_from_fen_str(Some("r3k2r/8/8/8/8/8/8/RN2K2R w KQkq - 0 1"));
    let (_, movement_squares) = King::calc_movements(&position, position.wk, &mut move_list, enemy_attacked_squares, &mut king_attack_analyzer);
    // O-O is there, O-O-O is not while b1 is occupied
    assert_ne!(movement_squares & (1u64 << 6), 0);
    assert_eq!(movement_squares & (1u64 << 2), 0);
    for i in 0..move_list.list_len {
        assert!(!(move_list.move_list[i].source_square == 4 && move_list.move_list[i].target_square == 2));
    }

    // Without the knight both castling moves are there
    let (enemy_attacked_squares, position, mut move_list, mut king_attack_analyzer, _) = LegalMovesTestHelper::init_test_position_from_fen_str(Some("r3k2r/8/8/8/8/8/8/R3K2R w KQkq - 0 1"));
    let (_, movement_squares) = King::calc_movements(&position, position.wk, &mut move_list, enemy_attacked_squares, &mut king_attack_analyzer);
    assert_ne!(movement_squares & (1u64 << 6), 0);
    assert_ne!(movement_squares & (1u64 << 2), 0);
}

#[test]
fn rank_attacks_stop_on_first_blockers() {
    // white rook on d1, knight on b1, bishop on g1; the rook sees c1, b1, e1, f1, g1
    let p = Position::from_fen(Some("4k3/8/8/8/8/8/8/1N1R2B1 w - - 0 1")).unwrap();
    let r = my_chess_ql::attacks::calc_rank_attacks(&p, 3, 0xff, p.bk);
    assert_eq!(r, (1 << 1) | (1 << 2) | (1 << 4) | (1 << 5) | (1 << 6));
}
