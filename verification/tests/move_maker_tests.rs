use arrayvec::ArrayString;
use my_chess_ql::constants::PieceType;
use my_chess_ql::game_move::GameMove;
use my_chess_ql::legal_moves_helper::LegalMovesTestHelper;
use my_chess_ql::move_maker_test_helper::MoveMakerTestHelper;
use my_chess_ql::pieces::king::King;
use my_chess_ql::position::Position;
use my_chess_ql::position_helper::PositionHelper;

fn game_move(piece: PieceType, source_square: u8, target_square: u8, promotion_piece: PieceType, is_capture: bool) -> GameMove {
    GameMove { piece, source_square, target_square, promotion_piece, is_capture, extended_move_san: ArrayString::new() }
}

#[test]
fn test_make_move() {
    let (_, mut position, _, _, mut move_maker) = LegalMovesTestHelper::init_test_position_from_fen_str(Some("r2q1rk1/pp2ppbp/2p2np1/2pPP1B1/8/Q5np/P1P2PP1/R3KB1R w Q - 1 2"));
    // pxf6
    move_maker.make_move(&mut position, &game_move(PieceType::PAWN, 36, 45, PieceType::NONE, true), false);
    assert!(MoveMakerTestHelper::check_make_move_result(vec![
        (position.bn, vec!["g3"]),
        (position.wp, vec!["a2", "c2", "f2", "g2", "d5", "f6"])
    ]));

    // Rc8
    move_maker.make_move(&mut position, &game_move(PieceType::ROOK, 56, 58, PieceType::NONE, false), false);
    assert!(MoveMakerTestHelper::check_make_move_result(vec![
        (position.br, vec!["c8", "f8"]),
    ]));

    // Qxc5
    move_maker.make_move(&mut position, &game_move(PieceType::QUEEN, 16, 34, PieceType::NONE, true), false);
    assert!(MoveMakerTestHelper::check_make_move_result(vec![
        (position.wq, vec!["c5"]),
        (position.bp, vec!["a7", "b7", "c6", "e7", "f7", "g6", "h7", "h3"])
    ]));
}

#[test]
fn test_make_move_2() {
    let (enemy_attacked_squares, mut position, mut move_list, mut king_attack_analyzer, mut move_maker) = LegalMovesTestHelper::init_test_position_from_fen_str(Some("8/2p5/3p4/KP5r/1R3p1k/8/4P1P1/8 w - - 1 1"));
    // g3+
    let result = King::calc_movements(&position, position.wk, &mut move_list, enemy_attacked_squares, &mut king_attack_analyzer);
    assert!(LegalMovesTestHelper::check_attack_and_movement_squares(
        result,
        &move_list,
        vec!["a6", "a4", "b4", "b5", "b6"],
        "a5a4 a5a6"
    ));
    move_maker.make_move(&mut position, &game_move(PieceType::PAWN, 14, 22, PieceType::NONE, false), false);
    assert!(MoveMakerTestHelper::check_make_move_result(vec![
        (position.bp, vec!["c7", "d6", "f4"]),
        (position.wp, vec!["e2", "g3", "b5"])
    ]));

    // Kxg3
    move_maker.make_move(&mut position, &game_move(PieceType::KING, 31, 22, PieceType::NONE, true), false);
    assert!(MoveMakerTestHelper::check_make_move_result(vec![
        (position.bp, vec!["c7", "d6", "f4"]),
        (position.wp, vec!["e2", "b5"])
    ]));
    move_list.clear();
    let enemy_attacked_squares = LegalMovesTestHelper::calc_enemy_attacked_squares(&mut position, &mut king_attack_analyzer);
    let result = King::calc_movements(&position, position.wk, &mut move_list, enemy_attacked_squares, &mut king_attack_analyzer);
    assert!(LegalMovesTestHelper::check_attack_and_movement_squares(
        result,
        &move_list,
        vec!["a6", "a4", "b4", "b5", "b6"],
        "a5a4 a5a6"
    ));
}

#[test]
fn test_en_passant() {
    let (_, mut position, _, _, mut move_maker) = LegalMovesTestHelper::init_test_position_from_fen_str(Some("r2q1rk1/pp2ppbp/5np1/2pPP1B1/8/Q5np/P1P2PP1/R3KB1R w Q c6 1 2"));
    // pxc6 (en passant capture)
    move_maker.make_move(&mut position, &game_move(PieceType::PAWN, 35, 42, PieceType::NONE, true), false);
    assert!(MoveMakerTestHelper::check_make_move_result(vec![
        (position.bp, vec!["a7", "b7", "e7", "f7", "g6", "h7", "h3"]),
        (position.wp, vec!["a2", "c2", "f2", "g2", "c6", "e5"]),
        (position.en_passant_sq, vec![])
    ]));

    // a5 (test setting en_passant_sq in position)
    move_maker.make_move(&mut position, &game_move(PieceType::PAWN, 48, 32, PieceType::NONE, false), false);
    assert!(MoveMakerTestHelper::check_make_move_result(vec![
        (position.bp, vec!["a5", "b7", "e7", "f7", "g6", "h7", "h3"]),
        (position.en_passant_sq, vec!["a6"])
    ]));

    // c4 (test setting en_passant_sq in position)
    move_maker.make_move(&mut position, &game_move(PieceType::PAWN, 10, 26, PieceType::NONE, false), false);
    assert!(MoveMakerTestHelper::check_make_move_result(vec![
        (position.wp, vec!["a2", "c4", "f2", "g2", "c6", "e5"]),
        (position.en_passant_sq, vec!["c3"])
    ]));
}

#[test]
fn test_promotion() {
    let (_, mut position, _, _, mut move_maker) = LegalMovesTestHelper::init_test_position_from_fen_str(Some("r2q1rk1/ppP1ppbp/5np1/3PP1B1/8/Q5np/P1P2PP1/R3KB1R w Q - 1 2"));
    // c8=N
    move_maker.make_move(&mut position, &game_move(PieceType::PAWN, 50, 58, PieceType::KNIGHT, false), false);
    assert!(MoveMakerTestHelper::check_make_move_result(vec![
        (position.wp, vec!["a2", "c2", "f2", "g2", "d5", "e5"]),
        (position.wn, vec!["c8"]),
        (position.bq, vec!["d8"])
    ]));

    let (_, mut position, _, _, mut move_maker) = LegalMovesTestHelper::init_test_position_from_fen_str(Some("r2q1rk1/ppP1ppbp/5np1/3PP1B1/8/Q5np/P1P2PP1/R3KB1R w Q - 1 2"));
    // cxd8=Q
    move_maker.make_move(&mut position, &game_move(PieceType::PAWN, 50, 59, PieceType::QUEEN, true), false);
    assert!(MoveMakerTestHelper::check_make_move_result(vec![
        (position.wp, vec!["a2", "c2", "f2", "g2", "d5", "e5"]),
        (position.wq, vec!["a3", "d8"]),
        (position.bq, vec![])
    ]));
}

#[test]
#[allow(non_snake_case)]
fn MoveMaker_test_castling() {
    let (_, mut position, _, _, mut move_maker) = LegalMovesTestHelper::init_test_position_from_fen_str(Some("r2q1rk1/ppP1ppbp/5np1/3PP1B1/8/Q5np/P1P2PP1/R3K2R w KQ - 1 2"));
    // 1. o-o-o
    move_maker.make_move(&mut position, &game_move(PieceType::KING, 4, 2, PieceType::NONE, false), false);
    assert!(MoveMakerTestHelper::check_make_move_result(vec![
        (position.wk, vec!["c1"]),
        (position.wr, vec!["d1", "h1"]),
    ]));
    assert_eq!(position.castling_rights, 0);

    // 2. Capture one of the rooks
    let (_, mut position, _, _, mut move_maker) = LegalMovesTestHelper::init_test_position_from_fen_str(Some("r2q1rk1/ppP1ppbp/5np1/3PP1B1/8/Q5np/P1P2PP1/R3K2R b KQ - 1 2"));
    // Nxh1 (for black)
    move_maker.make_move(&mut position, &game_move(PieceType::KNIGHT, 22, 7, PieceType::NONE, true), false);
    assert!(MoveMakerTestHelper::check_make_move_result(vec![
        (position.wk, vec!["e1"]),
        (position.wr, vec!["a1"]),
        (position.bn, vec!["f6", "h1"]),
    ]));
    // Only kingside castling should be removed
    assert_eq!(position.castling_rights, PositionHelper::bitboard_from_algebraic(vec!["c1"]));

    // 3. Move queenside rook and ensure that only queenside castling is removed
    let (_, mut position, _, _, mut move_maker) = LegalMovesTestHelper::init_test_position_from_fen_str(Some("r2q1rk1/ppP1ppbp/5np1/3PP1B1/8/Q5np/P1P2PP1/R3K2R w KQ - 1 2"));
    move_maker.make_move(&mut position, &game_move(PieceType::ROOK, 0, 1, PieceType::NONE, false), false);
    assert!(MoveMakerTestHelper::check_make_move_result(vec![
        (position.wk, vec!["e1"]),
        (position.wr, vec!["b1", "h1"]),
    ]));
    // Only queenside castling should be removed
    assert_eq!(position.castling_rights, PositionHelper::bitboard_from_algebraic(vec!["g1"]));
}

#[test]
fn test_fifty_move_count() {
    let (_, mut position, _, _, mut move_maker) = LegalMovesTestHelper::init_test_position_from_fen_str(Some("r2q1rk1/ppP1ppbp/5np1/3PP1B1/8/Q5np/P1P2PP1/R3K2R w KQ - 1 2"));
    // 1. o-o-o ...
    move_maker.make_move(&mut position, &game_move(PieceType::KING, 4, 2, PieceType::NONE, false), false);
    assert_eq!(position.fifty_move_count, 2);

    // 1. ... Nxh1 (capture one of the rooks)
    move_maker.make_move(&mut position, &game_move(PieceType::KNIGHT, 22, 7, PieceType::NONE, true), false);
    assert_eq!(position.fifty_move_count, 0);

    // 2. d6 ...
    move_maker.make_move(&mut position, &game_move(PieceType::PAWN, 35, 43, PieceType::NONE, false), false);
    assert_eq!(position.fifty_move_count, 0);

    // 2. ... exd6
    move_maker.make_move(&mut position, &game_move(PieceType::PAWN, 52, 43, PieceType::NONE, true), false);
    assert_eq!(position.fifty_move_count, 0);

    // 3. Qb3
    move_maker.make_move(&mut position, &game_move(PieceType::QUEEN, 16, 17, PieceType::NONE, false), false);
    assert_eq!(position.fifty_move_count, 1);
}

#[test]
fn test_unmake_move() {
    let (_, mut position, _, _, mut move_maker) = LegalMovesTestHelper::init_test_position_from_fen_str(Some("r2q1rk1/pp2ppbp/2p2np1/2pPP1B1/8/Q5np/P1P2PP1/R3KB1R w Q - 1 2"));
    // pxf6
    assert!(MoveMakerTestHelper::test_unmake_move(&mut position, &mut move_maker, &game_move(PieceType::PAWN, 36, 45, PieceType::NONE, true)));
    // Qxc5
    assert!(MoveMakerTestHelper::test_unmake_move(&mut position, &mut move_maker, &game_move(PieceType::QUEEN, 16, 34, PieceType::NONE, true)));
    // d6
    assert!(MoveMakerTestHelper::test_unmake_move(&mut position, &mut move_maker, &game_move(PieceType::BISHOP, 5, 12, PieceType::NONE, false)));
    // o-o-o
    assert!(MoveMakerTestHelper::test_unmake_move(&mut position, &mut move_maker, &game_move(PieceType::KING, 4, 2, PieceType::NONE, false)));

    let (_, mut position, _, _, mut move_maker) = LegalMovesTestHelper::init_test_position_from_fen_str(Some("r2q1rk1/ppP1ppbp/5np1/3PP1B1/8/Q5np/P1P2PP1/R3KB1R w Q - 1 2"));
    // cxd8=Q
    assert!(MoveMakerTestHelper::test_unmake_move(&mut position, &mut move_maker, &game_move(PieceType::PAWN, 50, 59, PieceType::QUEEN, true)));
}

#[test]
fn unmake_restores_the_whole_position() {
    let mut position = Position::from_fen(Some("r3k2r/8/8/8/8/8/8/R3K2R w KQkq - 3 10")).unwrap();
    let before = position;
    let (_, mut move_maker) = (0, my_chess_ql::move_maker::MoveMaker::default());
    // o-o: king and rook move, castling rights change
    move_maker.make_move(&mut position, &game_move(PieceType::KING, 4, 6, PieceType::NONE, false), true);
    assert_eq!(position.wk, PositionHelper::bitboard_from_algebraic(vec!["g1"]));
    assert_eq!(position.wr, PositionHelper::bitboard_from_algebraic(vec!["a1", "f1"]));
    assert!(!position.white_to_move);
    move_maker.unmake_move(&mut position, &game_move(PieceType::KING, 4, 6, PieceType::NONE, false));
    assert_eq!(position.wk, before.wk);
    assert_eq!(position.wr, before.wr);
    assert_eq!(position.castling_rights, before.castling_rights);
    assert_eq!(position.fifty_move_count, before.fifty_move_count);
    assert_eq!(position.move_number, before.move_number);
    assert_eq!(position.white_to_move, before.white_to_move);
    assert_eq!(position.all_occupancy, before.all_occupancy);
    assert_eq!(position.pin_ray_masks, before.pin_ray_masks);
}

fn boards(p: &Position) -> [u64; 12] {
    [p.wp, p.wn, p.wb, p.wr, p.wq, p.wk, p.bp, p.bn, p.bb, p.br, p.bq, p.bk]
}

fn apart_with_one_king_each(p: &Position) -> bool {
    let b = boards(p);
    for i in 0..12 {
        for j in (i + 1)..12 {
            if b[i] & b[j] != 0 {
                return false;
            }
        }
    }
    p.wk.count_ones() == 1 && p.bk.count_ones() == 1
}

#[test]
fn moves_keep_pieces_apart_and_one_king_each() {
    let (_, mut position, _, _, mut move_maker) = LegalMovesTestHelper::init_test_position_from_fen_str(Some("r3k2r/1P6/8/3pP3/8/8/8/R3K2R w KQkq d6 0 1"));
    assert!(apart_with_one_king_each(&position));
    let pieces = position.all_occupancy.count_ones();
    // exd6 en passant
    move_maker.make_move(&mut position, &game_move(PieceType::PAWN, 36, 43, PieceType::NONE, true), false);
    assert!(apart_with_one_king_each(&position));
    assert_eq!(position.bp, 0);
    assert_eq!(position.all_occupancy.count_ones(), pieces - 1);
    // O-O-O for black
    move_maker.make_move(&mut position, &game_move(PieceType::KING, 60, 58, PieceType::NONE, false), false);
    assert!(apart_with_one_king_each(&position));
    assert_eq!(position.all_occupancy.count_ones(), pieces - 1);
    // b8=Q
    move_maker.make_move(&mut position, &game_move(PieceType::PAWN, 49, 57, PieceType::QUEEN, false), false);
    assert!(apart_with_one_king_each(&position));
    assert_eq!(position.wq, 1u64 << 57);
    // Rg8, then O-O for white
    move_maker.make_move(&mut position, &game_move(PieceType::ROOK, 63, 62, PieceType::NONE, false), false);
    move_maker.make_move(&mut position, &game_move(PieceType::KING, 4, 6, PieceType::NONE, false), false);
    assert!(apart_with_one_king_each(&position));
    assert_eq!(position.wr, (1u64 << 0) | (1u64 << 5));
}
