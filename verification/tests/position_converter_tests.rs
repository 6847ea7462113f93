use my_chess_ql::constants::{PieceType, NN_TOTAL_OUTPUT_PLANES};
use my_chess_ql::game_move::GameMove;
use my_chess_ql::game_move_list::GameMoveList;
use my_chess_ql::position::Position;
use my_chess_ql::position_analyzer::PositionAnalyzer;
use my_chess_ql::position_converter::PositionConverter;

const NN_PIECE_PLANES: usize = 12;
const NN_MOVE_HISTORY_PER_POS: usize = 8;
const NN_AUX_PLANES: usize = 7;

/// The float planes of the first position of a game (no earlier positions), from the side to
/// move, and the mask of its moves.
fn convert_position_for_nn(position: &Position, move_list: &GameMoveList) -> (Vec<f32>, Vec<f32>) {
    let mut input = vec![0f32; (NN_MOVE_HISTORY_PER_POS * NN_PIECE_PLANES + NN_AUX_PLANES) << 6];
    let flip_for_black = !position.white_to_move;
    let boards = PositionConverter::encode_piece_planes_for_nn(position, flip_for_black);
    for (i, board) in boards.iter().enumerate() {
        let mut b = *board;
        while b > 0 {
            input[(i << 6) + b.trailing_zeros() as usize] = 1.0;
            b &= b - 1;
        }
    }
    let aux = PositionConverter::encode_aux_planes_for_nn(position);
    let aux_values = [
        aux.black_to_move as u8 as f32,
        aux.move_number as f32 / 255.0,
        aux.fifty_move_count as f32 / 255.0,
        aux.p1_kingside_castling as u8 as f32,
        aux.p1_queenside_castling as u8 as f32,
        aux.p2_kingside_castling as u8 as f32,
        aux.p2_queenside_castling as u8 as f32,
    ];
    let aux_offset = (NN_MOVE_HISTORY_PER_POS * NN_PIECE_PLANES) << 6;
    for (i, v) in aux_values.iter().enumerate() {
        for s in 0..64 {
            input[aux_offset + (i << 6) + s] = *v;
        }
    }
    let mut output = vec![0f32; NN_TOTAL_OUTPUT_PLANES << 6];
    for place in PositionConverter::encode_movement_output_planes_for_nn(move_list, flip_for_black) {
        output[place] = 1.0;
    }
    (input, output)
}

fn compare_f32_vectors(vec1: &Vec<f32>, vec2: &Vec<f32>) {
    assert_eq!(vec1.len(), vec2.len());
    for i in 0..vec1.len() {
        assert!((vec1[i] - vec2[i]).abs() < 1e-5, "at {}: {} != {}", i, vec1[i], vec2[i]);
    }
}

// Sums of every 32 values of the planes: half a plane, so that a board flipped for black
// gives other sums than the unflipped one
fn calc_encoded_plane_checksums(plane_data: &Vec<f32>) -> Vec<f32> {
    let mut result: Vec<f32> = vec![];
    for stride in (0..plane_data.len()).step_by(32) {
        let mut total = 0f32;
        for i in 0..32 {
            total += plane_data[stride + i];
        }
        result.push(total);
    }
    result
}

#[test]
fn test_convert_position_for_nn() {
    let mut position = Position::from_fen(Some("r2q1rk1/p4pbp/2p2np1/6B1/3PP1b1/Q1P2N2/Pp2pPPP/3RKB1R b Kq g3 4 13")).unwrap();
    let mut move_list = GameMoveList::default();
    PositionAnalyzer::calc_legal_moves(&mut position, &mut move_list);

    let (input_planes, output_move_mask_planes) = convert_position_for_nn(&position, &move_list);

    compare_f32_vectors(
        &calc_encoded_plane_checksums(&input_planes),
        &vec![5.0, 2.0, 1.0, 0.0, 1.0, 1.0, 2.0, 0.0, 1.0, 0.0, 1.0, 0.0, 0.0, 7.0, 0.0, 1.0, 1.0, 1.0, 0.0, 2.0, 0.0, 1.0, 0.0, 1.0, 0.0, 0.0, 0.0, 0.0, 0.0, 0.0, 0.0, 0.0, 0.0, 0.0, 0.0, 0.0, 0.0, 0.0, 0.0, 0.0, 0.0, 0.0, 0.0, 0.0, 0.0, 0.0, 0.0, 0.0, 0.0, 0.0, 0.0, 0.0, 0.0, 0.0, 0.0, 0.0, 0.0, 0.0, 0.0, 0.0, 0.0, 0.0, 0.0, 0.0, 0.0, 0.0, 0.0, 0.0, 0.0, 0.0, 0.0, 0.0, 0.0, 0.0, 0.0, 0.0, 0.0, 0.0, 0.0, 0.0, 0.0, 0.0, 0.0, 0.0, 0.0, 0.0, 0.0, 0.0, 0.0, 0.0, 0.0, 0.0, 0.0, 0.0, 0.0, 0.0, 0.0, 0.0, 0.0, 0.0, 0.0, 0.0, 0.0, 0.0, 0.0, 0.0, 0.0, 0.0, 0.0, 0.0, 0.0, 0.0, 0.0, 0.0, 0.0, 0.0, 0.0, 0.0, 0.0, 0.0, 0.0, 0.0, 0.0, 0.0, 0.0, 0.0, 0.0, 0.0, 0.0, 0.0, 0.0, 0.0, 0.0, 0.0, 0.0, 0.0, 0.0, 0.0, 0.0, 0.0, 0.0, 0.0, 0.0, 0.0, 0.0, 0.0, 0.0, 0.0, 0.0, 0.0, 0.0, 0.0, 0.0, 0.0, 0.0, 0.0, 0.0, 0.0, 0.0, 0.0, 0.0, 0.0, 0.0, 0.0, 0.0, 0.0, 0.0, 0.0, 0.0, 0.0, 0.0, 0.0, 0.0, 0.0, 0.0, 0.0, 0.0, 0.0, 0.0, 0.0, 0.0, 0.0, 0.0, 0.0, 0.0, 0.0, 0.0, 0.0, 0.0, 0.0, 0.0, 0.0, 32.0, 32.0, 1.6313733, 1.6313733, 0.5019608, 0.5019608, 0.0, 0.0, 32.0, 32.0, 32.0, 32.0, 0.0, 0.0]
    );

    compare_f32_vectors(
        &calc_encoded_plane_checksums(&output_move_mask_planes),
        &vec![0.0, 0.0, 2.0, 0.0, 2.0, 1.0, 0.0, 0.0, 3.0, 0.0, 0.0, 0.0, 0.0, 0.0, 2.0, 0.0, 0.0, 0.0, 0.0, 0.0, 1.0, 0.0, 2.0, 1.0, 1.0, 0.0, 0.0, 0.0, 0.0, 0.0, 0.0, 0.0, 1.0, 0.0, 1.0, 0.0, 0.0, 0.0, 1.0, 0.0, 0.0, 1.0, 0.0, 0.0, 0.0, 0.0, 2.0, 0.0, 2.0, 0.0, 0.0, 0.0, 1.0, 0.0, 2.0, 0.0, 0.0, 0.0, 0.0, 1.0, 0.0, 0.0, 2.0, 1.0, 0.0, 0.0, 0.0, 0.0, 0.0, 0.0, 1.0, 0.0, 1.0, 0.0, 0.0, 0.0, 0.0, 0.0, 0.0, 0.0, 0.0, 0.0, 0.0, 0.0, 0.0, 0.0, 0.0, 0.0, 0.0, 0.0, 0.0, 1.0, 0.0, 0.0, 0.0, 1.0, 0.0, 0.0, 0.0, 0.0, 0.0, 0.0, 0.0, 0.0, 0.0, 0.0, 0.0, 0.0, 0.0, 0.0, 0.0, 0.0, 0.0, 0.0, 0.0, 1.0, 0.0, 0.0, 0.0, 1.0, 0.0, 0.0, 0.0, 1.0, 0.0, 0.0, 0.0, 0.0, 0.0, 1.0, 0.0, 1.0, 0.0, 1.0, 0.0, 1.0, 0.0, 1.0, 0.0, 1.0, 0.0, 1.0, 0.0, 1.0, 0.0, 1.0]
    );
}

#[test]
fn aux_planes_of_a_black_position() {
    let position = Position::from_fen(Some("r2q1rk1/p4pbp/2p2np1/6B1/3PP1b1/Q1P2N2/Pp2pPPP/3RKB1R b Kq g3 4 13")).unwrap();
    let aux = PositionConverter::encode_aux_planes_for_nn(&position);
    assert!(aux.black_to_move);
    assert_eq!(aux.move_number, 13);
    assert_eq!(aux.fifty_move_count, 4);
    assert!(!aux.p1_kingside_castling);
    assert!(aux.p1_queenside_castling);
    assert!(aux.p2_kingside_castling);
    assert!(!aux.p2_queenside_castling);
}

#[test]
fn piece_planes_flipped_for_black() {
    let position = Position::from_fen(None).unwrap();
    let white_view = PositionConverter::encode_piece_planes_for_nn(&position, false);
    let black_view = PositionConverter::encode_piece_planes_for_nn(&position, true);
    assert_eq!(white_view[0], 0xff00);
    assert_eq!(white_view[6], 0x00ff000000000000);
    // black's pawns first, seen from black's side of the board
    assert_eq!(black_view[0], 0xff00);
    assert_eq!(black_view[5], 0x10);
    assert_eq!(PositionConverter::encode_piece_positions(0x1, true), 0x0100000000000000);
}

#[test]
fn target_move_flipped_for_black() {
    let position = Position::from_fen(Some("rnbqkbnr/pppppppp/8/8/4P3/8/PPPP1PPP/RNBQKBNR b KQkq e3 0 1")).unwrap();
    let mut m = GameMove::default();
    m.piece = PieceType::PAWN;
    m.source_square = 52;
    m.target_square = 36;
    // e7-e5 seen from black: e2-e4
    assert_eq!(PositionConverter::convert_target_move_for_nn(&m, &position), 28 * 64 + 12);
}

#[test]
fn plane_history_keeps_the_last_positions_newest_first() {
    let mut h = my_chess_ql::position_converter::PlaneHistory::new();
    assert_eq!(h.white_view.len(), 8);
    assert!(h.white_view.iter().all(|b| *b == [0u64; 12]));
    let start = Position::from_fen(None).unwrap();
    h.record(&start);
    assert_eq!(h.white_view[0], PositionConverter::encode_piece_planes_for_nn(&start, false));
    assert_eq!(h.black_view[0], PositionConverter::encode_piece_planes_for_nn(&start, true));
    assert_eq!(h.white_view[1], [0u64; 12]);
    let other = Position::from_fen(Some("4k3/8/8/8/8/8/8/4K3 w - - 0 1")).unwrap();
    for _ in 0..8 {
        h.record(&other);
    }
    assert_eq!(h.white_view.len(), 8);
    assert!(h.white_view.iter().all(|b| *b == PositionConverter::encode_piece_planes_for_nn(&other, false)));
    h.record(&start);
    assert_eq!(h.white_view[0], PositionConverter::encode_piece_planes_for_nn(&start, false));
    assert_eq!(h.white_view[7], PositionConverter::encode_piece_planes_for_nn(&other, false));
}
