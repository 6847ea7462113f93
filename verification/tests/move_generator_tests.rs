use std::time::Instant;
use my_chess_ql::constants::PlayerColour;
use my_chess_ql::game_move_list::GameMoveList;
use my_chess_ql::move_generator::MoveGenerator;
use my_chess_ql::position::Position;
use my_chess_ql::position_helper::PositionHelper;

#[test]
fn MoveGenerator_test_calc_legal_moves_benchmark() {
    let iterations = 10000000;

    let position = Position::from_fen(Some("r2q1rk1/pP2ppbp/2p2np1/PpPPP1B1/51b1/Q4N1P/5PP1/3RKB1R w KQkq b6 1 2")).unwrap();
    let mut move_list = GameMoveList::default();
    let before = Instant::now();
    for _ in 0..iterations {
        move_list.clear();
        MoveGenerator::calc_legal_moves(&position, &mut move_list);
    }
    println!("Elapsed time: {:.2?}", before.elapsed());
}

#[test]
fn MoveGenerator_test_calc_all_attacked_squares() {
    let position = Position::from_fen(None).unwrap();
    let white_attacks = MoveGenerator::calc_all_attacked_squares(&position, PlayerColour::WHITE);
    let black_attacks = MoveGenerator::calc_all_attacked_squares(&position, PlayerColour::BLACK);

    assert_eq!(white_attacks, PositionHelper::bitboard_from_algebraic(vec!["b1", "c1", "d1", "e1", "f1", "g1", "a2", "b2", "c2", "d2", "e2", "f2", "g2", "h2", "a3", "b3", "c3", "d3", "e3", "f3", "g3", "h3"]));
    assert_eq!(black_attacks, PositionHelper::bitboard_from_algebraic(vec!["b8", "c8", "d8", "e8", "f8", "g8", "a7", "b7", "c7", "d7", "e7", "f7", "g7", "h7", "a6", "b6", "c6", "d6", "e6", "f6", "g6", "h6"]));
}

#[test]
fn first_generator_moves_of_start_position() {
    let position = Position::from_fen(None).unwrap();
    let mut move_list = GameMoveList::default();
    MoveGenerator::calc_legal_moves(&position, &mut move_list);
    assert_eq!(move_list.list_len, 20);
}
