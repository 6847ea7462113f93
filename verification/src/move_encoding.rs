use vstd::prelude::*;
use crate::constants::{PieceType, NN_TOTAL_OUTPUT_PLANES, VERTICAL_FLIP_INDICES, piece_type_number};
use crate::game_move::GameMove;
use crate::position_helper::PositionHelper;

verus! {

/// The square as the network sees it: flipped vertically when black is to move.
pub open spec fn seen_square(sq: u8, flip_for_black: bool) -> int {
    if flip_for_black {
        VERTICAL_FLIP_INDICES[sq as int] as int
    } else {
        sq as int
    }
}

/// The output plane of a move: its target square, or for an under-promotion (to a knight,
/// bishop or rook) one of the nine planes after the 64 target planes, by file direction and
/// promotion piece.
pub open spec fn movement_plane(m: GameMove, flip_for_black: bool) -> int {
    if m.promotion_piece != PieceType::NONE && m.promotion_piece != PieceType::QUEEN {
        let file_diff = (m.target_square & 7u8) - (m.source_square & 7u8);
        64 + 3 * (file_diff + 1) + (piece_type_number(m.promotion_piece) - 1)
    } else {
        seen_square(m.target_square, flip_for_black)
    }
}

/// The position of a move in the output planes of the network: its plane, then its source
/// square (as the network sees it) within the plane.
pub open spec fn movement_index(m: GameMove, flip_for_black: bool) -> int {
    movement_plane(m, flip_for_black) * 64 + seen_square(m.source_square, flip_for_black)
}

/// The position of a move in the output planes of the network: the plane of its target square
/// (or of its under-promotion), and its source square within that plane; squares are flipped
/// vertically for black.
pub fn movement_plane_index(game_move: &GameMove, flip_for_black: bool) -> (r: usize)
    requires
        flip_for_black ==> game_move.source_square < 64 && game_move.target_square < 64,
    ensures
        r == movement_index(*game_move, flip_for_black),
{
    // Default the plane number to the target square of the piece movement
    let mut plane_num: usize = if flip_for_black {
        VERTICAL_FLIP_INDICES[game_move.target_square as usize] as usize
    } else {
        game_move.target_square as usize
    };
    // Under-promotions are encoded on a separate set of planes
    if game_move.promotion_piece != PieceType::NONE && game_move.promotion_piece != PieceType::QUEEN {
        let (_, file_src) = PositionHelper::rank_and_file_from_index(game_move.source_square);
        let (_, file_tgt) = PositionHelper::rank_and_file_from_index(game_move.target_square);
        // The file moves by -1, 0 or 1 for a pawn promotion; knight, bishop, rook are 1, 2, 3
        let file_diff: i8 = file_tgt as i8 - file_src as i8;
        plane_num = (64 + (3 * (file_diff as i32 + 1)) + (game_move.promotion_piece.number() as i32 - 1)) as usize;
    }
    // The board is flipped vertically when black is to move
    let square_offset: usize = if flip_for_black {
        VERTICAL_FLIP_INDICES[game_move.source_square as usize] as usize
    } else {
        game_move.source_square as usize
    };
    plane_num * 64 + square_offset
}

/// A move promoted to a knight, a bishop or a rook.
pub open spec fn is_underpromotion(m: GameMove) -> bool {
    m.promotion_piece != PieceType::NONE && m.promotion_piece != PieceType::QUEEN
}

/// The file a move goes to, less the file it comes from.
pub open spec fn file_diff(m: GameMove) -> int {
    (m.target_square & 7u8) - (m.source_square & 7u8)
}

/// A move the output planes have a place for: both squares on the board, no promotion to a
/// pawn or a king, and an under-promotion that moves one file at most.
pub open spec fn encodable(m: GameMove) -> bool {
    &&& m.source_square < 64 && m.target_square < 64
    &&& m.promotion_piece != PieceType::PAWN && m.promotion_piece != PieceType::KING
    &&& is_underpromotion(m) ==> -1 <= file_diff(m) <= 1
}

/// The flip table holds each square with its rank mirrored.
proof fn lemma_flip_table(i: int)
    requires
        0 <= i < 64,
    ensures
        VERTICAL_FLIP_INDICES[i] as int == (7 - i / 8) * 8 + i % 8,
{
}

/// Every move that the output planes have a place for has a place of its own, inside the
/// planes: two such moves at the same place come from the same square, and either both go to
/// the same square without an under-promotion, or are the same under-promotion in the same
/// file direction.
pub proof fn lemma_movement_index_unique(m1: GameMove, m2: GameMove, flip_for_black: bool)
    requires
        encodable(m1),
        encodable(m2),
    ensures
        0 <= movement_index(m1, flip_for_black) < NN_TOTAL_OUTPUT_PLANES * 64,
        movement_index(m1, flip_for_black) == movement_index(m2, flip_for_black) ==> {
            &&& m1.source_square == m2.source_square
            &&& is_underpromotion(m1) == is_underpromotion(m2)
            &&& !is_underpromotion(m1) ==> m1.target_square == m2.target_square
            &&& is_underpromotion(m1) ==> m1.promotion_piece == m2.promotion_piece && file_diff(m1)
                == file_diff(m2)
        },
{
    lemma_flip_table(m1.source_square as int);
    lemma_flip_table(m2.source_square as int);
    lemma_flip_table(m1.target_square as int);
    lemma_flip_table(m2.target_square as int);
    let s1 = seen_square(m1.source_square, flip_for_black);
    let s2 = seen_square(m2.source_square, flip_for_black);
    let p1 = movement_plane(m1, flip_for_black);
    let p2 = movement_plane(m2, flip_for_black);
    assert(0 <= s1 < 64 && 0 <= s2 < 64);
    assert(0 <= p1 < 73 && 0 <= p2 < 73);
    if movement_index(m1, flip_for_black) == movement_index(m2, flip_for_black) {
        assert(p1 == p2 && s1 == s2);
    }
}

} // verus!
