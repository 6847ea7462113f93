use my_chess_ql::position_helper::PositionHelper;

#[test]
fn test_bitboard_from_algebraic() {
    assert_eq!(PositionHelper::bitboard_from_algebraic(vec![]), 0x0000000000000000);
    assert_eq!(PositionHelper::bitboard_from_algebraic(vec!["a1", "h8"]), 0x8000000000000001);
    assert_eq!(
        PositionHelper::bitboard_from_algebraic(vec!["a1", "b1", "h1", "g3", "c6", "a8", "b8", "h8"]),
        0x8300040000400083
    );
}

#[test]
fn test_algebraic_from_bitboard() {
    assert_eq!(PositionHelper::algebraic_from_bitboard(0x8000000000000001), vec!["a1", "h8"]);
    assert_eq!(
        PositionHelper::algebraic_from_bitboard(0x8300040000400083),
        vec!["a1", "b1", "h1", "g3", "c6", "a8", "b8", "h8"]
    );
}

#[test]
fn index_and_name_of_squares() {
    assert_eq!(PositionHelper::index_from_algebraic("a1"), 0);
    assert_eq!(PositionHelper::index_from_algebraic("h8"), 63);
    assert_eq!(PositionHelper::index_from_algebraic("e4"), 28);
    assert_eq!(PositionHelper::algebraic_from_index(28), "e4");
    assert_eq!(PositionHelper::algebraic_from_index(63), "h8");
    assert_eq!(PositionHelper::rank_and_file_from_index(28), (3, 4));
}

#[test]
fn square_names_round_trip() {
    for index in 0u8..64 {
        let name = PositionHelper::algebraic_from_index(index);
        assert_eq!(PositionHelper::index_from_algebraic(name.as_str()), index);
    }
}

#[test]
fn empty_bitboard_has_no_names() {
    assert!(PositionHelper::algebraic_from_bitboard(0).is_empty());
    assert_eq!(PositionHelper::bool_to_bitboard(true), u64::MAX);
    assert_eq!(PositionHelper::bool_to_bitboard(false), 0);
}

#[test]
fn one_name_per_set_square() {
    for b in [0u64, 1, 0x8000000000000001, 0xff00ff, u64::MAX] {
        let names = PositionHelper::algebraic_from_bitboard(b);
        assert_eq!(names.len() as u32, b.count_ones());
        for n in names.iter() {
            let i = PositionHelper::index_from_algebraic(n.as_str());
            assert_eq!((b >> i) & 1, 1);
            assert_eq!(PositionHelper::algebraic_from_index(i), *n);
        }
    }
}

#[test]
fn square_list_order_and_repeats_do_not_matter() {
    let a = PositionHelper::bitboard_from_algebraic(vec!["e4", "a1", "e4", "h8"]);
    let b = PositionHelper::bitboard_from_algebraic(vec!["h8", "a1", "e4"]);
    assert_eq!(a, b);
    assert_eq!(a, (1u64 << 28) | 1 | (1u64 << 63));
}

#[test]
fn names_of_a_bitboard_read_back_to_it() {
    for b in [0u64, 1, 0x8000000000000001, 0xff00ff, 0x1234_5678_9abc_def0, u64::MAX] {
        let names = PositionHelper::algebraic_from_bitboard(b);
        let strs: Vec<&str> = names.iter().map(|s| s.as_str()).collect();
        assert_eq!(PositionHelper::bitboard_from_algebraic(strs), b);
    }
}

#[test]
fn names_back_from_a_bitboard_are_sorted_and_unique() {
    let b = PositionHelper::bitboard_from_algebraic(vec!["h8", "e4", "a1", "e4", "c3"]);
    assert_eq!(PositionHelper::algebraic_from_bitboard(b), vec!["a1", "c3", "e4", "h8"]);
    assert_eq!(PositionHelper::algebraic_from_bitboard(0), Vec::<String>::new());
}
