use vstd::prelude::*;
use crate::bitboard::{sq_bb, union_over, lemma_clear_lsb_smaller, lemma_union_step, lemma_union_over_zero, lowest_square, lemma_or_assoc};
use crate::constants::{PieceType, PlayerColour, KNIGHT_ATTACKS};
use crate::game_move_list::{GameMoveList, MAX_MOVES_PER_POSITION};
use crate::king_attack_ray_analyzer::{KingAttackRayAnalyzer, merge_check};
use crate::pieces::piece::{Piece, pieces_moves, pieces_movement_squares, add_pieces_movement};
use crate::position::Position;
use crate::position_helper::PositionHelper;

verus! {

pub struct Knight {}

/// The squares a knight on `s` attacks.
pub open spec fn knight_own() -> spec_fn(u64) -> u64 {
    |s: u64| KNIGHT_ATTACKS[s as int]
}

/// Squares attacked by knights on the set squares of `b`.
pub open spec fn knight_attacks_of(b: u64) -> u64 {
    union_over(b, knight_own())
}

/// The knights of `b` that attack the enemy king.
pub open spec fn knight_checkers(b: u64, enemy_king_pos: u64) -> u64 {
    union_over(b, |s: u64| if KNIGHT_ATTACKS[s as int] & enemy_king_pos > 0 { sq_bb(s) } else { 0 })
}

impl Piece for Knight {
    fn get_piece_type() -> (r: PieceType)
        ensures
            r == PieceType::KNIGHT,
    {
        PieceType::KNIGHT
    }
}

impl Knight {
    /// Squares attacked by the knights of `piece_pos`; a knight giving check is recorded as a
    /// check ray of its own square.
    pub fn calc_attacked_squares(
        _position: &Position,
        piece_pos: u64,
        _player: &PlayerColour,
        enemy_king_pos: u64,
        king_attack_analyzer: &mut KingAttackRayAnalyzer,
    ) -> (r: u64)
        requires
            knight_checkers(piece_pos, enemy_king_pos) > 0 ==> old(king_attack_analyzer).num_checking_pieces < 255,
        ensures
            r == knight_attacks_of(piece_pos),
            final(king_attack_analyzer)@ == merge_check(
                old(king_attack_analyzer)@,
                knight_checkers(piece_pos, enemy_king_pos),
            ),
    {
        let mut piece_pos = piece_pos;
        let ghost all = piece_pos;
        let ghost own = knight_own();
        let ghost chk = |s: u64| if KNIGHT_ATTACKS[s as int] & enemy_king_pos > 0 { sq_bb(s) } else { 0 };
        let mut knight_attacks: u64 = 0;
        let mut king_check_board: u64 = 0u64;
        proof {
            lemma_or_assoc(union_over(all, own), 0, 0);
            lemma_or_assoc(union_over(all, chk), 0, 0);
        }
        while piece_pos > 0
            invariant
                knight_attacks | union_over(piece_pos, own) == union_over(all, own),
                king_check_board | union_over(piece_pos, chk) == union_over(all, chk),
                own == knight_own(),
                chk == (|s: u64| if KNIGHT_ATTACKS[s as int] & enemy_king_pos > 0 { sq_bb(s) } else { 0 }),
            decreases piece_pos,
        {
            let sq_ind = lowest_square(piece_pos);
            let ghost acc0 = knight_attacks;
            let ghost chk0 = king_check_board;
            knight_attacks = knight_attacks | KNIGHT_ATTACKS[sq_ind as usize];
            proof {
                assert((1u64 << sq_ind) & u64::MAX == (1u64 << sq_ind) && (1u64 << sq_ind) & 0u64 == 0u64) by (bit_vector);
            }
            king_check_board = king_check_board | ((1u64 << sq_ind) & PositionHelper::bool_to_bitboard(
                KNIGHT_ATTACKS[sq_ind as usize] & enemy_king_pos > 0,
            ));
            proof {
                lemma_union_step(acc0, piece_pos, own);
                lemma_union_step(chk0, piece_pos, chk);
                lemma_clear_lsb_smaller(piece_pos);
            }
            piece_pos = piece_pos & (piece_pos - 1);
        }
        proof {
            lemma_or_assoc(knight_attacks, 0, 0);
            lemma_or_assoc(king_check_board, 0, 0);
        }
        king_attack_analyzer.merge_check_ray(king_check_board);
        knight_attacks
    }
}

impl Knight {
    /// Adds the moves of the knights of `piece_pos` for the side to move: each knight may move
    /// to the squares it attacks that hold no friendly piece, within its pin mask. Returns the
    /// attacked squares and the movement squares.
    pub fn calc_movements(
        position: &Position,
        piece_pos: u64,
        move_list: &mut GameMoveList,
        _enemy_attacked_squares: u64,
        king_attack_analyzer: &mut KingAttackRayAnalyzer,
    ) -> (r: (u64, u64))
        requires
            old(move_list).wf(),
            old(move_list).list_len + pieces_moves(
                *position,
                PieceType::KNIGHT,
                piece_pos,
                knight_attacks_of(piece_pos) & !position.friendly_occupancy,
                knight_own(),
            ).len() <= MAX_MOVES_PER_POSITION,
        ensures
            r.0 == knight_attacks_of(piece_pos),
            r.1 == pieces_movement_squares(
                *position,
                piece_pos,
                knight_attacks_of(piece_pos) & !position.friendly_occupancy,
                knight_own(),
            ),
            final(move_list).wf(),
            final(move_list).keys() == old(move_list).keys() + pieces_moves(
                *position,
                PieceType::KNIGHT,
                piece_pos,
                knight_attacks_of(piece_pos) & !position.friendly_occupancy,
                knight_own(),
            ),
            final(king_attack_analyzer)@ == old(king_attack_analyzer)@,
    {
        proof {
            crate::bitboard::lemma_and_identities();
            lemma_union_over_zero(
                piece_pos,
                |s: u64| if KNIGHT_ATTACKS[s as int] & 0u64 > 0 { sq_bb(s) } else { 0 },
            );
        }
        let attacked_squares = Knight::calc_attacked_squares(
            position,
            piece_pos,
            if position.white_to_move { &PlayerColour::WHITE } else { &PlayerColour::BLACK },
            0,
            king_attack_analyzer,
        );
        let base_movement_squares = attacked_squares & !position.friendly_occupancy;
        let movement_squares = add_pieces_movement(
            move_list,
            position,
            PieceType::KNIGHT,
            piece_pos,
            base_movement_squares,
        );
        (attacked_squares, movement_squares)
    }
}

} // verus!
