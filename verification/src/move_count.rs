use vstd::prelude::*;
use crate::bitboard::{bit, count_ones, lsb_index, clear_lsb, popcount, sq_bb, lowest_square, lemma_clear_lsb_smaller, lemma_lsb, lemma_popcount_bound, lemma_and_identities, lemma_union_over_zero};
use crate::constants::{PieceType, PlayerColour, A_FILE, C_FILE, G_FILE, H_FILE, RANK_2, RANK_7, KING_ATTACKS, KNIGHT_ATTACKS};
use crate::king_attack_ray_analyzer::KingAttackRayAnalyzer;
use crate::pieces::bishop::{Bishop, lemma_bishop_analysis_no_king};
use crate::pieces::king::king_moves;
use crate::pieces::knight::Knight;
use crate::pieces::pawn::{Pawn, pawn_moves, pawn_move_allowed, pawn_target_moves, pawn_movement_moves, sources_on_board};
use crate::pieces::piece::{square_moves, square_movements, pieces_moves, mover_own, own_attacks, target_moves};
use crate::pieces::queen::{Queen, lemma_queen_analysis_no_king};
use crate::pieces::rook::{Rook, lemma_rook_analysis_no_king};
use crate::position::Position;
use crate::position_analyzer::{PositionAnalyzer, analysable, cleared_analysis, generated_moves, side_moves, side_pieces, mover};
use crate::position_helper::PositionHelper;

verus! {

/// Counts the moves that the generator would add, without storing them.
pub struct MoveCounter {}

/// The moves to the squares of a board number its set squares.
proof fn lemma_target_moves_len(piece: PieceType, source: u8, targets: u64, is_capture: bool)
    ensures
        target_moves(piece, source, targets, is_capture).len() == popcount(targets),
{
}

impl MoveCounter {
    /// The number of moves of the piece on `sq_ind` to the squares `cur`.
    fn square_move_count(position: &Position, piece_type: PieceType, sq_ind: u64, cur: u64) -> (n: u64)
        ensures
            n == square_moves(*position, piece_type, sq_ind, cur).len(),
            n <= 128,
    {
        let captures = count_ones(cur & position.enemy_occupancy);
        let quiet = count_ones(cur & position.non_occupancy);
        proof {
            lemma_target_moves_len(piece_type, sq_ind as u8, cur & position.enemy_occupancy, true);
            lemma_target_moves_len(piece_type, sq_ind as u8, cur & position.non_occupancy, false);
        }
        captures as u64 + quiet as u64
    }

    /// The number of moves of the pieces on `piece_pos` of the side to move, each moving to the
    /// squares of `base` that its own attacks and its pin mask allow.
    fn pieces_move_count(position: &Position, piece_type: PieceType, piece_pos: u64, base: u64) -> (n: u64)
        ensures
            n == pieces_moves(*position, piece_type, piece_pos, base, mover_own(piece_type, *position)).len(),
            n <= 128 * 64,
    {
        let ghost own = mover_own(piece_type, *position);
        let ghost p = *position;
        let ghost all = piece_pos;
        let mut rest = piece_pos;
        let mut n: u64 = 0;
        proof {
            lemma_popcount_bound(all);
        }
        while rest > 0
            invariant
                p == *position,
                own == mover_own(piece_type, p),
                n + pieces_moves(p, piece_type, rest, base, own).len() == pieces_moves(p, piece_type, all, base, own).len(),
                n + 128 * popcount(rest) <= 128 * popcount(all),
                popcount(all) <= 64,
            decreases rest,
        {
            let sq_ind = lowest_square(rest);
            let own_squares = own_attacks(piece_type, position, sq_ind);
            let cur = base & position.pin_ray_masks[sq_ind as usize] & own_squares;
            proof {
                lemma_clear_lsb_smaller(rest);
                assert(popcount(rest) == 1 + popcount(clear_lsb(rest)));
                assert(cur == square_movements(p, base, own(sq_ind), sq_ind));
            }
            n = n + MoveCounter::square_move_count(position, piece_type, sq_ind, cur);
            rest = rest & (rest - 1);
        }
        n
    }

    /// The number of moves of pawns to the squares of `squares`, each from `offset` away: four
    /// promotions to the first or last rank, one move otherwise, and none where the pin mask
    /// forbids it.
    fn pawn_move_count(position: &Position, squares: u64, offset: i8, is_capture: bool) -> (n: u64)
        requires
            sources_on_board(squares, offset as int),
        ensures
            n == pawn_moves(*position, squares, offset as int, is_capture).len(),
            n <= 4 * 64,
    {
        let ghost p = *position;
        let ghost off = offset as int;
        let ghost all = squares;
        let mut rest = squares;
        let mut n: u64 = 0;
        proof {
            lemma_popcount_bound(all);
        }
        while rest > 0
            invariant
                p == *position,
                off == offset as int,
                sources_on_board(rest, off),
                n + pawn_moves(p, rest, off, is_capture).len() == pawn_moves(p, all, off, is_capture).len(),
                n + 4 * popcount(rest) <= 4 * popcount(all),
                popcount(all) <= 64,
            decreases rest,
        {
            let target_square = lowest_square(rest) as u8;
            proof {
                lemma_lsb(rest);
                lemma_clear_lsb_smaller(rest);
                assert(popcount(rest) == 1 + popcount(clear_lsb(rest)));
                let r2 = clear_lsb(rest);
                assert forall|t: u64| t < 64 && bit(r2, t) implies 0 <= t + off < 64 by {
                    assert(bit(rest, t));
                }
                assert(pawn_moves(p, rest, off, is_capture) == (if pawn_move_allowed(p, target_square as u64, off) {
                    pawn_target_moves(target_square as u64, off, is_capture)
                } else {
                    Seq::empty()
                }) + pawn_moves(p, r2, off, is_capture));
            }
            let source_square = (target_square as i8 + offset) as u8;
            if position.pin_ray_masks[source_square as usize] & (1u64 << (target_square as u64)) > 0 {
                let target_rank = target_square >> 3;
                proof {
                    crate::position_helper::lemma_byte_parts(target_square);
                }
                if target_rank == 0 || target_rank == 7 {
                    n = n + 4;
                } else {
                    n = n + 1;
                }
            }
            rest = rest & (rest - 1);
        }
        n
    }

    /// The number of pawn moves of the side to move.
    fn pawn_movement_count(position: &Position) -> (n: u64)
        ensures
            n == pawn_movement_moves(*position).len(),
            n <= 4 * 4 * 64,
    {
        let ghost p = *position;
        proof {
            lemma_and_identities();
        }
        if position.white_to_move {
            let (left_attacked, right_attacked, _king_attacks) = Pawn::calc_left_right_attacks(
                position,
                &PlayerColour::WHITE,
                position.bk,
            );
            let capture_squares = (left_attacked | right_attacked) & (position.black_occupancy | position.en_passant_sq);
            let forward_one_square_moves = (position.wp << 8) & position.non_occupancy & position.check_ray_mask;
            let forward_two_square_moves = ((position.wp & RANK_2) << 16) & (forward_one_square_moves << 8)
                & position.non_occupancy & position.check_ray_mask;
            proof {
                Pawn::lemma_sources(position.wp & !A_FILE, 7, false, position.check_ray_mask, capture_squares, 0);
                Pawn::lemma_sources(position.wp & !H_FILE, 9, false, position.check_ray_mask, capture_squares, 0);
                Pawn::lemma_sources(position.wp, 8, false, position.non_occupancy, position.check_ray_mask, 0);
                Pawn::lemma_sources(position.wp & RANK_2, 16, false, forward_one_square_moves << 8u64,
                    position.non_occupancy, position.check_ray_mask);
            }
            MoveCounter::pawn_move_count(position, left_attacked & capture_squares, -7, true)
                + MoveCounter::pawn_move_count(position, right_attacked & capture_squares, -9, true)
                + MoveCounter::pawn_move_count(position, forward_one_square_moves, -8, false)
                + MoveCounter::pawn_move_count(position, forward_two_square_moves, -16, false)
        } else {
            let (left_attacked, right_attacked, _king_attacks) = Pawn::calc_left_right_attacks(
                position,
                &PlayerColour::BLACK,
                position.wk,
            );
            let capture_squares = (left_attacked | right_attacked) & (position.white_occupancy | position.en_passant_sq);
            let forward_one_square_moves = (position.bp >> 8) & position.non_occupancy & position.check_ray_mask;
            let forward_two_square_moves = ((position.bp & RANK_7) >> 16) & (forward_one_square_moves >> 8)
                & position.non_occupancy & position.check_ray_mask;
            proof {
                Pawn::lemma_sources(position.bp & !H_FILE, 7, true, position.check_ray_mask, capture_squares, 0);
                Pawn::lemma_sources(position.bp & !A_FILE, 9, true, position.check_ray_mask, capture_squares, 0);
                Pawn::lemma_sources(position.bp, 8, true, position.non_occupancy, position.check_ray_mask, 0);
                Pawn::lemma_sources(position.bp & RANK_7, 16, true, forward_one_square_moves >> 8u64,
                    position.non_occupancy, position.check_ray_mask);
            }
            MoveCounter::pawn_move_count(position, left_attacked & capture_squares, 7, true)
                + MoveCounter::pawn_move_count(position, right_attacked & capture_squares, 9, true)
                + MoveCounter::pawn_move_count(position, forward_one_square_moves, 8, false)
                + MoveCounter::pawn_move_count(position, forward_two_square_moves, 16, false)
        }
    }

    /// The number of moves of the king on the lowest set square of `king`.
    fn king_move_count(position: &Position, king: u64, enemy_attacked_squares: u64) -> (n: u64)
        requires
            king != 0,
        ensures
            n == king_moves(*position, lsb_index(king), enemy_attacked_squares).len(),
            n <= 128,
    {
        let sq_ind = lowest_square(king);
        let check_ray_mask_for_king = (PositionHelper::bool_to_bitboard(position.king_in_check)
            ^ position.check_ray_mask) | position.enemy_occupancy;
        let king_valid_squares = KING_ATTACKS[sq_ind as usize] & !enemy_attacked_squares
            & check_ray_mask_for_king;
        let king_captures = king_valid_squares & position.enemy_occupancy;
        let king_non_captures = king_valid_squares & position.non_occupancy;
        let castle_base = king_non_captures | (position.castling_rights
            & PositionHelper::bool_to_bitboard(sq_ind == 4 || sq_ind == 60)
            & PositionHelper::bool_to_bitboard(!position.king_in_check) & !enemy_attacked_squares
            & position.non_occupancy);
        let castling_squares = ((castle_base & (castle_base << 1) & G_FILE) | (castle_base & (castle_base
            >> 1) & (position.non_occupancy << 1) & C_FILE)) & position.castling_rights;
        proof {
            lemma_target_moves_len(PieceType::KING, sq_ind as u8, king_captures, true);
            lemma_target_moves_len(PieceType::KING, sq_ind as u8, king_non_captures | castling_squares, false);
        }
        count_ones(king_captures) as u64 + count_ones(king_non_captures | castling_squares) as u64
    }

    /// The number of moves of the side to move of an analysed position: king moves, then,
    /// unless the king is in double check, pawn, knight, rook, bishop and queen moves.
    pub fn side_move_count(position: &Position, enemy_attacked_squares: u64) -> (n: u64)
        requires
            side_pieces(*position, mover(*position)).2 != 0,
        ensures
            n == side_moves(*position, enemy_attacked_squares).len(),
    {
        let ghost q = *position;
        let ghost s = side_pieces(q, mover(q));
        let (pawns, knights, king, rooks, bishops, queens) = if position.white_to_move {
            (position.wp, position.wn, position.wk, position.wr, position.wb, position.wq)
        } else {
            (position.bp, position.bn, position.bk, position.br, position.bb, position.bq)
        };
        let player = if position.white_to_move { &PlayerColour::WHITE } else { &PlayerColour::BLACK };
        let king_count = MoveCounter::king_move_count(position, king, enemy_attacked_squares);
        if position.king_in_double_check {
            return king_count;
        }
        let mut scratch = KingAttackRayAnalyzer::default();
        proof {
            lemma_and_identities();
            lemma_union_over_zero(knights, |t: u64| if KNIGHT_ATTACKS[t as int] & 0u64 > 0 { sq_bb(t) } else { 0 });
            lemma_rook_analysis_no_king(scratch@, *position, rooks);
        }
        let knight_attacks = Knight::calc_attacked_squares(position, knights, player, 0, &mut scratch);
        let rook_attacks = Rook::calc_attacked_squares(position, rooks, player, 0, &mut scratch);
        proof {
            lemma_bishop_analysis_no_king(scratch@, *position, bishops);
        }
        let bishop_attacks = Bishop::calc_attacked_squares(position, bishops, player, 0, &mut scratch);
        proof {
            lemma_queen_analysis_no_king(scratch@, *position, queens);
        }
        let queen_attacks = Queen::calc_attacked_squares(position, queens, player, 0, &mut scratch);
        let pawn_count = MoveCounter::pawn_movement_count(position);
        let knight_count = MoveCounter::pieces_move_count(
            position,
            PieceType::KNIGHT,
            knights,
            knight_attacks & !position.friendly_occupancy,
        );
        let rook_count = MoveCounter::pieces_move_count(
            position,
            PieceType::ROOK,
            rooks,
            rook_attacks & !position.friendly_occupancy,
        );
        let bishop_count = MoveCounter::pieces_move_count(
            position,
            PieceType::BISHOP,
            bishops,
            bishop_attacks & !position.friendly_occupancy,
        );
        let queen_count = MoveCounter::pieces_move_count(
            position,
            PieceType::QUEEN,
            queens,
            queen_attacks & !position.friendly_occupancy,
        );
        king_count + pawn_count + knight_count + rook_count + bishop_count + queen_count
    }

    /// The number of legal moves of the side to move: the position is analysed for checks and
    /// pins on a copy, and its moves counted.
    pub fn legal_move_count(position: &Position) -> (n: u64)
        requires
            analysable(*position),
        ensures
            n == generated_moves(*position).len(),
    {
        let mut q = *position;
        let mut king_attack_analyzer = KingAttackRayAnalyzer::default();
        proof {
            assert(king_attack_analyzer@.0 =~= cleared_analysis().0);
        }
        let enemy_attacked_squares = if q.white_to_move {
            PositionAnalyzer::calc_all_attacked_squares(&q, &PlayerColour::BLACK, q.wk, &mut king_attack_analyzer)
        } else {
            PositionAnalyzer::calc_all_attacked_squares(&q, &PlayerColour::WHITE, q.bk, &mut king_attack_analyzer)
        };
        PositionAnalyzer::update_position_from_king_ray_attack_analysis(&mut q, &king_attack_analyzer);
        MoveCounter::side_move_count(&q, enemy_attacked_squares)
    }
}

} // verus!
