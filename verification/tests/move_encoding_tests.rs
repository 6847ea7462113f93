use arrayvec::ArrayString;
use my_chess_ql::constants::{PieceType, KNIGHT_ATTACKS, NN_TOTAL_OUTPUT_PLANES, QUEEN_ATTACKS};
use my_chess_ql::game_move::GameMove;
use my_chess_ql::move_encoding::movement_plane_index;

/// Marks the output of a move in the planes, as the network's output encoder does.
fn encode_movement(movement_planes: &mut [f32], game_move: &GameMove, flip_for_black: bool) {
    movement_planes[movement_plane_index(game_move, flip_for_black)] = 1f32;
}

fn default_move() -> GameMove {
    GameMove {
        piece: PieceType::NONE,
        source_square: 0,
        target_square: 0,
        promotion_piece: PieceType::NONE,
        is_capture: false,
        extended_move_san: ArrayString::new(),
    }
}

// Every source square x target square mapping, and the under-promotions, have a location of
// their own in the output planes.
#[test]
fn test_encode_movement_output_planes() {
    let mut movement_planes = vec![0f32; NN_TOTAL_OUTPUT_PLANES << 6];
    let mut target_count = 0;

    for sq_ind in 0..64 {
        let mut cardinal_moves = QUEEN_ATTACKS[sq_ind];
        let mut knight_moves = KNIGHT_ATTACKS[sq_ind];

        let mut game_move = default_move();
        game_move.source_square = sq_ind as u8;

        while cardinal_moves > 0 {
            game_move.piece = PieceType::QUEEN;
            game_move.target_square = cardinal_moves.trailing_zeros() as u8;

            encode_movement(&mut movement_planes, &game_move, false);

            // Under-promotions are encoded in planes of their own
            if (game_move.target_square >= 56 && game_move.source_square >= 48 && game_move.source_square < 56)
                || (game_move.target_square <= 7 && game_move.source_square >= 8 && game_move.source_square < 16) {
                game_move.piece = PieceType::PAWN;
                for promotion_piece in [PieceType::KNIGHT, PieceType::BISHOP, PieceType::ROOK] {
                    game_move.promotion_piece = promotion_piece;
                    encode_movement(&mut movement_planes, &game_move, false);
                    game_move.promotion_piece = PieceType::NONE;

                    target_count += 1;
                }
            }

            cardinal_moves &= cardinal_moves - 1;
        }

        while knight_moves > 0 {
            game_move.piece = PieceType::KNIGHT;
            game_move.target_square = knight_moves.trailing_zeros() as u8;

            encode_movement(&mut movement_planes, &game_move, false);
            knight_moves &= knight_moves - 1;
        }

        target_count += QUEEN_ATTACKS[sq_ind].count_ones() + KNIGHT_ATTACKS[sq_ind].count_ones();

        let mut current_count = 0u32;
        for s in 0..movement_planes.len() {
            current_count += movement_planes[s] as u32;
        }

        assert_eq!(target_count, current_count);
    }
}

fn test_encode_movement_helper(piece: PieceType, source_square: u8, target_square: u8, promotion_piece: PieceType, flip_for_black: bool, expected_index: usize) {
    let mut movement_planes = vec![0f32; NN_TOTAL_OUTPUT_PLANES << 6];

    encode_movement(
        &mut movement_planes,
        &GameMove {
            piece,
            source_square,
            target_square,
            is_capture: false,
            promotion_piece,
            extended_move_san: ArrayString::new(),
        },
        flip_for_black,
    );
    assert_eq!(movement_planes[expected_index], 1f32);
}

#[test]
fn test_encode_movement_output_plane_locations() {
    // Basic moves for white
    test_encode_movement_helper(PieceType::QUEEN, 0, 0, PieceType::NONE, false, 0);
    test_encode_movement_helper(PieceType::QUEEN, 0, 1, PieceType::NONE, false, 64);
    test_encode_movement_helper(PieceType::QUEEN, 1, 1, PieceType::NONE, false, 65);
    test_encode_movement_helper(PieceType::QUEEN, 37, 40, PieceType::NONE, false, 2597);
    test_encode_movement_helper(PieceType::QUEEN, 63, 40, PieceType::NONE, false, 2623);
    test_encode_movement_helper(PieceType::QUEEN, 63, 63, PieceType::NONE, false, 4095);

    // Basic moves for black - the squares are flipped vertically
    test_encode_movement_helper(PieceType::QUEEN, 0, 0, PieceType::NONE, true, 3640);
    test_encode_movement_helper(PieceType::QUEEN, 0, 1, PieceType::NONE, true, 3704);
    test_encode_movement_helper(PieceType::QUEEN, 1, 1, PieceType::NONE, true, 3705);
    test_encode_movement_helper(PieceType::QUEEN, 37, 40, PieceType::NONE, true, 1053);
    test_encode_movement_helper(PieceType::QUEEN, 63, 40, PieceType::NONE, true, 1031);
    test_encode_movement_helper(PieceType::QUEEN, 63, 63, PieceType::NONE, true, 455);

    // Promotions for white - only under-promotions go to the additional planes
    test_encode_movement_helper(PieceType::PAWN, 48, 56, PieceType::QUEEN, false, 3632);
    test_encode_movement_helper(PieceType::PAWN, 48, 56, PieceType::KNIGHT, false, 4336);
    test_encode_movement_helper(PieceType::PAWN, 48, 56, PieceType::BISHOP, false, 4400);
    test_encode_movement_helper(PieceType::PAWN, 48, 56, PieceType::ROOK, false, 4464);
    test_encode_movement_helper(PieceType::PAWN, 54, 61, PieceType::KNIGHT, false, 4150);
    test_encode_movement_helper(PieceType::PAWN, 54, 63, PieceType::ROOK, false, 4662);

    // Promotions for black
    test_encode_movement_helper(PieceType::PAWN, 8, 0, PieceType::QUEEN, true, 3632);
    test_encode_movement_helper(PieceType::PAWN, 8, 0, PieceType::KNIGHT, true, 4336);
    test_encode_movement_helper(PieceType::PAWN, 8, 0, PieceType::BISHOP, true, 4400);
    test_encode_movement_helper(PieceType::PAWN, 8, 0, PieceType::ROOK, true, 4464);
    test_encode_movement_helper(PieceType::PAWN, 10, 1, PieceType::KNIGHT, true, 4146);
    test_encode_movement_helper(PieceType::PAWN, 10, 3, PieceType::ROOK, true, 4658);
}

#[test]
fn encoding_of_a_knight_move_uses_its_target_plane() {
    // g1-f3: plane 21, source square 6
    let mut g = default_move();
    g.piece = PieceType::KNIGHT;
    g.source_square = 6;
    g.target_square = 21;
    assert_eq!(movement_plane_index(&g, false), 21 * 64 + 6);
    // flipped for black: f3 -> f6 (45), g1 -> g8 (62)
    assert_eq!(movement_plane_index(&g, true), 45 * 64 + 62);
}
