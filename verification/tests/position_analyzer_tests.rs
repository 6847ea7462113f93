use std::time::Instant;
use my_chess_ql::constants::{PieceType, PlayerColour};
use my_chess_ql::game_move_list::GameMoveList;
use my_chess_ql::king_attack_ray_analyzer::KingAttackRayAnalyzer;
use my_chess_ql::legal_moves_helper::LegalMovesTestHelper;
use my_chess_ql::move_count::MoveCounter;
use my_chess_ql::perft::PerftBenchmark;
use my_chess_ql::position::Position;
use my_chess_ql::position_analyzer::PositionAnalyzer;
use my_chess_ql::position_helper::PositionHelper;

#[test]
fn test_double_check() {
    let mut position = Position::from_fen(Some("4k3/6N1/5b2/4R3/8/8/8/4K3 b KQkq b6 1 2")).unwrap();
    let mut move_list = GameMoveList::default();

    PositionAnalyzer::calc_legal_moves(&mut position, &mut move_list);

    assert_eq!(position.king_in_check, true);
    assert_eq!(position.king_in_double_check, true);

    for i in 0..move_list.list_len {
        assert_eq!(move_list.move_list[i].piece as u8, PieceType::KING as u8);
    }
}

#[test]
fn PositionAnalyzer_test_calc_legal_moves_benchmark() {
    let iterations = 100;

    let mut position = Position::from_fen(Some("r2q1rk1/pP2ppbp/2p2np1/PpPPP1B1/51b1/Q4N1P/5PP1/3RKB1R w KQkq b6 1 2")).unwrap();
    let mut move_list = GameMoveList::default();
    let before = Instant::now();
    for _ in 0..iterations {
        move_list.clear();
        PositionAnalyzer::calc_legal_moves(&mut position, &mut move_list);
    }
    println!("Elapsed time: {:.2?}", before.elapsed());
}

#[test]
fn PositionAnalyzer_test_calc_all_attacked_squares() {
    let (_enemy_attacked_squares, position, _move_list, mut king_attack_analyzer, _) = LegalMovesTestHelper::init_test_position_from_fen_str(None);
    let white_attacks = PositionAnalyzer::calc_all_attacked_squares(&position, &PlayerColour::WHITE, position.bk, &mut king_attack_analyzer);
    let black_attacks = PositionAnalyzer::calc_all_attacked_squares(&position, &PlayerColour::BLACK, position.wk, &mut king_attack_analyzer);

    assert_eq!(white_attacks, PositionHelper::bitboard_from_algebraic(vec!["b1", "c1", "d1", "e1", "f1", "g1", "a2", "b2", "c2", "d2", "e2", "f2", "g2", "h2", "a3", "b3", "c3", "d3", "e3", "f3", "g3", "h3"]));
    assert_eq!(black_attacks, PositionHelper::bitboard_from_algebraic(vec!["b8", "c8", "d8", "e8", "f8", "g8", "a7", "b7", "c7", "d7", "e7", "f7", "g7", "h7", "a6", "b6", "c6", "d6", "e6", "f6", "g6", "h6"]));
    // No pin and no check: every mask lets everything through
    assert!(LegalMovesTestHelper::check_king_attack_analysis(&king_attack_analyzer, [u64::MAX; 64], u64::MAX, 0, false));
}

#[test]
fn test_checks() {
    // 1. Checking piece can be captured
    let mut king_attack_analyzer = KingAttackRayAnalyzer::default();
    let mut position = Position::from_fen(Some("4k3/3p4/4Q3/8/4R3/8/8/4K3 b KQkq - 1 2")).unwrap();
    let mut move_list = GameMoveList::default();
    let _white_attacks = PositionAnalyzer::calc_all_attacked_squares(&position, &PlayerColour::WHITE, position.bk, &mut king_attack_analyzer);
    PositionAnalyzer::calc_legal_moves(&mut position, &mut move_list);

    assert_eq!(king_attack_analyzer.pin_ray_masks, [u64::MAX; 64]);
    assert_eq!(king_attack_analyzer.check_ray_mask, PositionHelper::bitboard_from_algebraic(vec!["e6", "e7"]));
    assert_eq!(king_attack_analyzer.num_checking_pieces, 1);
    assert_eq!(king_attack_analyzer.disable_en_passant, false);
}

#[test]
fn test_pins() {
    let mut king_attack_analyzer = KingAttackRayAnalyzer::default();

    // 1. One pinned piece
    let position = Position::from_fen(Some("4k3/4b3/8/8/4R3/8/8/4K3 b KQkq - 1 2")).unwrap();
    let _white_attacks = PositionAnalyzer::calc_all_attacked_squares(&position, &PlayerColour::WHITE, position.bk, &mut king_attack_analyzer);
    let expected = LegalMovesTestHelper::generate_pin_ray_board(vec![("e7", vec!["e4", "e5", "e6", "e7"])]);
    assert_eq!(king_attack_analyzer.pin_ray_masks, expected);
    assert_eq!(king_attack_analyzer.check_ray_mask, u64::MAX);
    assert_eq!(king_attack_analyzer.num_checking_pieces, 0);
    assert_eq!(king_attack_analyzer.disable_en_passant, false);

    let mut king_attack_analyzer = KingAttackRayAnalyzer::default();
    let _black_attacks = PositionAnalyzer::calc_all_attacked_squares(&position, &PlayerColour::BLACK, position.wk, &mut king_attack_analyzer);
    assert_eq!(king_attack_analyzer.pin_ray_masks, [u64::MAX; 64]);
    assert_eq!(king_attack_analyzer.check_ray_mask, u64::MAX);
    assert_eq!(king_attack_analyzer.num_checking_pieces, 0);
    assert_eq!(king_attack_analyzer.disable_en_passant, false);

    // 2. Two pinned pieces but one can be captured
    let mut king_attack_analyzer = KingAttackRayAnalyzer::default();
    let position = Position::from_fen(Some("4k3/3pb3/2B5/8/4R3/8/8/4K3 b KQkq - 1 2")).unwrap();
    let _white_attacks = PositionAnalyzer::calc_all_attacked_squares(&position, &PlayerColour::WHITE, position.bk, &mut king_attack_analyzer);
    let expected = LegalMovesTestHelper::generate_pin_ray_board(vec![("e7", vec!["e4", "e5", "e6", "e7"]), ("d7", vec!["c6", "d7"])]);
    assert_eq!(king_attack_analyzer.pin_ray_masks, expected);
    assert_eq!(king_attack_analyzer.check_ray_mask, u64::MAX);
    assert_eq!(king_attack_analyzer.num_checking_pieces, 0);
    assert_eq!(king_attack_analyzer.disable_en_passant, false);
}

#[test]
fn start_position_has_twenty_moves() {
    let mut position = Position::from_fen(None).unwrap();
    let mut move_list = GameMoveList::default();
    PositionAnalyzer::calc_legal_moves(&mut position, &mut move_list);
    assert_eq!(move_list.list_len, 20);
    assert_eq!(position.king_in_check, false);
}

#[test]
fn perft_of_the_start_position() {
    let mut position = Position::from_fen(None).unwrap();
    assert_eq!(PerftBenchmark::run_perft_recursive(&mut position, 1), 20);
    let mut position = Position::from_fen(None).unwrap();
    assert_eq!(PerftBenchmark::run_perft_recursive(&mut position, 2), 400);
    let mut position = Position::from_fen(None).unwrap();
    assert_eq!(PerftBenchmark::run_perft_recursive(&mut position, 3), 8902);
}

#[test]
fn counted_moves_match_generated_ones() {
    for fen in [
        None,
        Some("r2q1rk1/pP2ppbp/2p2np1/PpPPP1B1/51b1/Q4N1P/5PP1/3RKB1R w KQkq b6 1 2"),
        Some("4k3/6N1/5b2/4R3/8/8/8/4K3 b KQkq b6 1 2"),
        Some("r3k2r/8/8/8/8/3bQ3/8/R3K2R w KQkq - 1 2"),
    ] {
        let mut position = Position::from_fen(fen).unwrap();
        let count = MoveCounter::legal_move_count(&position);
        let mut move_list = GameMoveList::default();
        PositionAnalyzer::calc_legal_moves(&mut position, &mut move_list);
        assert_eq!(count, move_list.list_len as u64);
    }
}

#[test]
fn checked_perft_counts_or_stops() {
    let mut position = Position::from_fen(None).unwrap();
    assert_eq!(PerftBenchmark::run_perft_checked(&mut position, 3), Some(8902));
    // Without a black king the position cannot be analysed
    let mut position = Position::from_fen(Some("8/8/8/8/8/8/8/4K3 w - - 0 1")).unwrap();
    assert!(!PositionAnalyzer::is_analysable(&position));
    assert_eq!(PerftBenchmark::run_perft_checked(&mut position, 2), None);
}

#[test]
fn perft_of_a_rook_and_pawn_ending() {
    // A well-known perft position: counts for depths 1 to 3
    for (depth, nodes) in [(1u8, 14usize), (2, 191), (3, 2812)] {
        let mut position = Position::from_fen(Some("8/2p5/3p4/KP5r/1R3p1k/8/4P1P1/8 w - - 0 1")).unwrap();
        assert_eq!(PerftBenchmark::run_perft_checked(&mut position, depth), Some(nodes));
    }
}

#[test]
fn moves_land_on_empty_or_enemy_squares_and_king_stays_safe() {
    let (enemy_attacked_squares, _, _, _, _) = LegalMovesTestHelper::init_test_position_from_fen_str(Some("r2q1rk1/pP2ppbp/2p2np1/PpPPP1B1/51b1/Q4N1P/5PP1/3RKB1R w KQkq b6 1 2"));
    let mut position = Position::from_fen(Some("r2q1rk1/pP2ppbp/2p2np1/PpPPP1B1/51b1/Q4N1P/5PP1/3RKB1R w KQkq b6 1 2")).unwrap();
    let mut move_list = GameMoveList::default();
    PositionAnalyzer::calc_legal_moves(&mut position, &mut move_list);
    for i in 0..move_list.list_len {
        let m = move_list.move_list[i];
        let t = 1u64 << m.target_square;
        assert_eq!(t & position.friendly_occupancy, 0);
        if m.is_capture {
            assert!(t & position.enemy_occupancy != 0 || t & position.en_passant_sq != 0);
        } else {
            assert!(t & position.non_occupancy != 0);
        }
        if m.piece == PieceType::KING {
            assert_eq!(t & enemy_attacked_squares, 0);
        }
    }
}

#[test]
fn perft_of_a_position_with_castling_pins_and_en_passant() {
    // A well-known perft position with all kinds of moves: counts for depths 1 and 2
    for (depth, nodes) in [(1u8, 48usize), (2, 2039)] {
        let mut position = Position::from_fen(Some("r3k2r/p1ppqpb1/bn2pnp1/3PN3/1p2P3/2N2Q1p/PPPBBPPP/R3K2R w KQkq - 0 1")).unwrap();
        assert_eq!(PerftBenchmark::run_perft_checked(&mut position, depth), Some(nodes));
    }
}

fn perft(fen: Option<&str>, depth: u8) -> Option<usize> {
    let mut position = Position::from_fen(fen).unwrap();
    PerftBenchmark::run_perft_checked(&mut position, depth)
}

#[test]
fn perft_of_a_quiet_middle_game() {
    // Position 6 of the standard perft suite
    let fen = Some("r4rk1/1pp1qppp/p1np1n2/2b1p1B1/2B1P1b1/P1NP1N2/1PP1QPPP/R4RK1 w - - 0 10");
    assert_eq!(perft(fen, 1), Some(46));
}

#[test]
fn king_steps_leave_the_king_unattacked() {
    for fen in [
        "r3k2r/p1ppqpb1/bn2pnp1/3PN3/1p2P3/2N2Q1p/PPPBBPPP/R3K2R w KQkq - 0 1",
        "8/2p5/3p4/KP5r/1R3p1k/8/4P1P1/8 w - - 0 1",
        "4k3/8/8/8/8/8/3q4/4K3 w - - 0 1",
    ] {
        let mut position = Position::from_fen(Some(fen)).unwrap();
        let mut move_list = GameMoveList::default();
        PositionAnalyzer::calc_legal_moves(&mut position, &mut move_list);
        let mut king_steps = 0;
        for i in 0..move_list.list_len {
            let m = move_list.move_list[i];
            let distance = (m.target_square as i32 - m.source_square as i32).abs();
            if m.piece != PieceType::KING || distance == 2 {
                continue;
            }
            king_steps += 1;
            let mut after = position;
            let mut move_maker = my_chess_ql::move_maker::MoveMaker::default();
            move_maker.make_move(&mut after, &m, false);
            let mut analyzer = KingAttackRayAnalyzer::default();
            let king = 1u64 << m.target_square;
            let attacker = if after.white_to_move { PlayerColour::WHITE } else { PlayerColour::BLACK };
            let attacks = PositionAnalyzer::calc_all_attacked_squares(&after, &attacker, king, &mut analyzer);
            assert_eq!(attacks & king, 0);
        }
        assert!(king_steps > 0);
    }
}
