use my_chess_ql::constants::START_POSITION;
use my_chess_ql::fen::FenError;
use my_chess_ql::position::Position;
use my_chess_ql::position_helper::PositionHelper;

#[test]
fn test_from_fen_start_pos() {
    let position = Position::from_fen(None).unwrap();
    assert_eq!(position.bp, 0x00ff000000000000);
    assert_eq!(position.bn, 0x4200000000000000);
    assert_eq!(position.bb, 0x2400000000000000);
    assert_eq!(position.br, 0x8100000000000000);
    assert_eq!(position.bq, 0x0800000000000000);
    assert_eq!(position.bk, 0x1000000000000000);
    assert_eq!(position.wp, 0x000000000000ff00);
    assert_eq!(position.wn, 0x0000000000000042);
    assert_eq!(position.wb, 0x0000000000000024);
    assert_eq!(position.wr, 0x0000000000000081);
    assert_eq!(position.wq, 0x0000000000000008);
    assert_eq!(position.wk, 0x0000000000000010);

    assert_eq!(position.white_occupancy, position.wp | position.wn | position.wb | position.wr | position.wq | position.wk);
    assert_eq!(position.black_occupancy, position.bp | position.bn | position.bb | position.br | position.bq | position.bk);
    assert_eq!(position.white_occupancy, position.friendly_occupancy);
    assert_eq!(position.black_occupancy, position.enemy_occupancy);

    assert_eq!(position.white_to_move, true);
    assert_eq!(position.castling_rights, PositionHelper::bitboard_from_algebraic(vec!["c1", "g1", "c8", "g8"]));
    assert_eq!(position.en_passant_sq, 0);
    assert_eq!(position.fifty_move_count, 0);
    assert_eq!(position.move_number, 1);
}

#[test]
fn test_from_fen_pos1() {
    let position = Position::from_fen(Some("r2q1rk1/pp2ppbp/2p2np1/6B1/3PP1b1/Q1P2N2/P4PPP/3RKB1R b Kq g3 4 13")).unwrap();
    assert_eq!(position.bp, PositionHelper::bitboard_from_algebraic(vec!["a7", "b7", "e7", "f7", "h7", "c6", "g6"]));
    assert_eq!(position.bn, PositionHelper::bitboard_from_algebraic(vec!["f6"]));
    assert_eq!(position.bb, PositionHelper::bitboard_from_algebraic(vec!["g7", "g4"]));
    assert_eq!(position.br, PositionHelper::bitboard_from_algebraic(vec!["a8", "f8"]));
    assert_eq!(position.bq, PositionHelper::bitboard_from_algebraic(vec!["d8"]));
    assert_eq!(position.bk, PositionHelper::bitboard_from_algebraic(vec!["g8"]));
    assert_eq!(position.wp, PositionHelper::bitboard_from_algebraic(vec!["d4", "e4", "c3", "a2", "f2", "g2", "h2"]));
    assert_eq!(position.wn, PositionHelper::bitboard_from_algebraic(vec!["f3"]));
    assert_eq!(position.wb, PositionHelper::bitboard_from_algebraic(vec!["g5", "f1"]));
    assert_eq!(position.wr, PositionHelper::bitboard_from_algebraic(vec!["d1", "h1"]));
    assert_eq!(position.wq, PositionHelper::bitboard_from_algebraic(vec!["a3"]));
    assert_eq!(position.wk, PositionHelper::bitboard_from_algebraic(vec!["e1"]));

    assert_eq!(position.white_to_move, false);
    assert_eq!(position.castling_rights, PositionHelper::bitboard_from_algebraic(vec!["g1", "c8"]));
    assert_eq!(position.en_passant_sq, PositionHelper::bitboard_from_algebraic(vec!["g3"]));
    assert_eq!(position.fifty_move_count, 4);
    assert_eq!(position.move_number, 13);
}

#[test]
fn test_calc_occupancy() {
    let position = Position::from_fen(Some(START_POSITION)).unwrap();
    assert_eq!((position.white_occupancy, position.black_occupancy, position.all_occupancy, position.non_occupancy),
               (0xffff, 0xffff000000000000, 0xffff00000000ffff, 0x0000ffffffff0000));
}

#[test]
fn refused_fen_strings() {
    // Five fields instead of six
    assert_eq!(Position::from_fen(Some("8/8/8/8/8/8/8/8 w - - 0")).err(), Some(FenError::InvalidFen));
    // A character that places no piece
    assert_eq!(Position::from_fen(Some("8/8/8/8/8/8/8/7x w - - 0 1")).err(), Some(FenError::InvalidFen));
    // A castling field with another letter
    assert_eq!(Position::from_fen(Some("8/8/8/8/8/8/8/8 w KX - 0 1")).err(), Some(FenError::InvalidCastlingSide));
}

#[test]
fn fen_counters_and_side() {
    let position = Position::from_fen(Some("4k3/8/8/8/8/8/8/4K3 B - - +7 0300")).unwrap();
    assert_eq!(position.white_to_move, false);
    assert_eq!(position.fifty_move_count, 7);
    assert_eq!(position.move_number, 300);
    assert_eq!(position.castling_rights, 0);
    assert_eq!(position.wk, 0x10);
    assert_eq!(position.bk, 0x1000000000000000);
}

#[test]
fn fen_loadable_check() {
    assert!(Position::fen_loadable_check(None));
    assert!(Position::fen_loadable_check(Some("4k3/8/8/8/8/8/8/4K3 w - e3 0 1")));
    // A half-move counter above 255 and a move number that is not a number cannot be read
    assert!(!Position::fen_loadable_check(Some("4k3/8/8/8/8/8/8/4K3 w - - 256 1")));
    assert!(!Position::fen_loadable_check(Some("4k3/8/8/8/8/8/8/4K3 w - - 0 x")));
    // Neither can an en passant field that names no square
    assert!(!Position::fen_loadable_check(Some("4k3/8/8/8/8/8/8/4K3 w - !! 0 1")));
    // A string refused before its counters are read needs no counters
    assert!(Position::fen_loadable_check(Some("bad")));
}

#[test]
fn default_position_is_empty() {
    let p = Position::default();
    assert_eq!(p.all_occupancy, 0);
    assert_eq!(p.pin_ray_masks, [u64::MAX; 64]);
    assert!(p.white_to_move);
    let mut q = p;
    q.wk = 0x10;
    q.bk = 0x1000000000000000;
    q.update_occupancy();
    assert_eq!(q.all_occupancy, 0x1000000000000010);
    assert_eq!(q.friendly_occupancy, 0x10);
    assert_eq!(q.non_occupancy, !0x1000000000000010u64);
}

#[test]
fn malformed_fen_strings_are_refused() {
    // five fields
    assert!(Position::from_fen(Some("8/8/8/8/8/8/8/4K3 w - - 0")).is_err());
    // a character outside the placement alphabet
    assert!(Position::from_fen(Some("4k3/8/8/8/8/8/8/4X3 w - - 0 1")).is_err());
    // a castling character outside KQkq
    assert!(Position::from_fen(Some("4k3/8/8/8/8/8/8/4K3 w KZ - 0 1")).is_err());
    // the same string with a valid castling field is read
    assert!(Position::from_fen(Some("4k3/8/8/8/8/8/8/4K3 w KQ - 0 1")).is_ok());
}
