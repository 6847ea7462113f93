use vstd::prelude::*;
use crate::attacks::{calc_file_or_diagonal_attacks, calc_rank_attacks, rank_attack_set, line_attack_set, line_occupancy, attack_ray, attack_ray_spec, lemma_rank_table};
use crate::bitboard::{popcount, lsb_index, clear_lsb, union_over, lemma_clear_lsb_smaller, lemma_union_step, lowest_square, lemma_or_assoc, lemma_and_identities};
use crate::constants::{PieceType, PlayerColour, RANKS, FILES};
use crate::game_move_list::{GameMoveList, MAX_MOVES_PER_POSITION};
use crate::king_attack_ray_analyzer::{KingAttackRayAnalyzer, AnalysisModel, analyze_ray, lemma_analyze_ray_count};
use crate::pieces::piece::{Piece, pieces_moves, pieces_movement_squares, add_pieces_movement};
use crate::position::Position;

verus! {

pub struct Rook {}

/// Squares a rook on `s` attacks along its rank and file (the enemy king does not block).
pub open spec fn rook_square_attacks(p: Position, s: u64, enemy_king_pos: u64) -> u64 {
    rank_attack_set(
        line_occupancy(p, RANKS[(s >> 3u64) as int], enemy_king_pos),
        s,
        RANKS[(s >> 3u64) as int],
    ) | line_attack_set(
        line_occupancy(p, FILES[(s & 7u64) as int], enemy_king_pos),
        s,
        FILES[(s & 7u64) as int],
    )
}

/// The squares a rook attacks, by square.
pub open spec fn rook_own(p: Position, enemy_king_pos: u64) -> spec_fn(u64) -> u64 {
    |s: u64| rook_square_attacks(p, s, enemy_king_pos)
}

/// Squares attacked by the rooks of `b`, within the check mask.
pub open spec fn rook_attacks_of(p: Position, b: u64, enemy_king_pos: u64) -> u64 {
    union_over(b, rook_own(p, enemy_king_pos)) & p.check_ray_mask
}

/// The analysis after examining, for each rook of `b` (lowest first), the ray to the king along
/// its rank and then along its file when the king is on that rank or file.
pub open spec fn rook_analysis(a: AnalysisModel, p: Position, b: u64, enemy_king_pos: u64) -> AnalysisModel
    decreases b,
{
    if b == 0 {
        a
    } else {
        proof {
            lemma_clear_lsb_smaller(b);
        }
        let s = lsb_index(b);
        let ray = attack_ray_spec(s, lsb_index(enemy_king_pos));
        let a1 = if RANKS[(s >> 3u64) as int] & enemy_king_pos > 0 {
            analyze_ray(a, p, ray, true, enemy_king_pos)
        } else {
            a
        };
        let a2 = if FILES[(s & 7u64) as int] & enemy_king_pos > 0 {
            analyze_ray(a1, p, ray, false, enemy_king_pos)
        } else {
            a1
        };
        rook_analysis(a2, p, clear_lsb(b), enemy_king_pos)
    }
}

/// Without an enemy king there is nothing to analyse.
pub proof fn lemma_rook_analysis_no_king(a: AnalysisModel, p: Position, b: u64)
    ensures
        rook_analysis(a, p, b, 0) == a,
    decreases b,
{
    lemma_and_identities();
    if b != 0 {
        lemma_clear_lsb_smaller(b);
        lemma_rook_analysis_no_king(a, p, clear_lsb(b));
    }
}

/// Examining the rooks of `b` adds at most two checking pieces per rook.
pub proof fn lemma_rook_analysis_count(a: AnalysisModel, p: Position, b: u64, enemy_king_pos: u64)
    requires
        a.2 + 2 * popcount(b) <= 255,
    ensures
        a.2 <= rook_analysis(a, p, b, enemy_king_pos).2 <= a.2 + 2 * popcount(b),
    decreases b,
{
    if b != 0 {
        lemma_clear_lsb_smaller(b);
        let s = lsb_index(b);
        let ray = attack_ray_spec(s, lsb_index(enemy_king_pos));
        let h = RANKS[(s >> 3u64) as int] & enemy_king_pos > 0;
        let v = FILES[(s & 7u64) as int] & enemy_king_pos > 0;
        lemma_analyze_ray_count(a, p, ray, true, enemy_king_pos);
        let a1 = if h { analyze_ray(a, p, ray, true, enemy_king_pos) } else { a };
        lemma_analyze_ray_count(a1, p, ray, false, enemy_king_pos);
        let a2 = if v { analyze_ray(a1, p, ray, false, enemy_king_pos) } else { a1 };
        lemma_rook_analysis_count(a2, p, clear_lsb(b), enemy_king_pos);
    }
}

impl Piece for Rook {
    fn get_piece_type() -> (r: PieceType)
        ensures
            r == PieceType::ROOK,
    {
        PieceType::ROOK
    }
}

impl Rook {
    /// Squares a rook on `sq_ind` attacks along its rank and file.
    pub fn square_attacks(position: &Position, sq_ind: u64, enemy_king_pos: u64) -> (r: u64)
        requires
            sq_ind < 64,
        ensures
            r == rook_square_attacks(*position, sq_ind, enemy_king_pos),
    {
        proof {
            lemma_rank_table(sq_ind);
        }
        calc_rank_attacks(position, sq_ind as usize, RANKS[(sq_ind >> 3) as usize], enemy_king_pos)
            | calc_file_or_diagonal_attacks(position, sq_ind as usize, FILES[(sq_ind & 7) as usize], enemy_king_pos)
    }

    /// Squares attacked by the rooks of `piece_pos`, within the check mask; for each rook on the
    /// rank or file of the enemy king, the ray to the king is analysed for checks and pins.
    pub fn calc_attacked_squares(
        position: &Position,
        piece_pos: u64,
        _player: &PlayerColour,
        enemy_king_pos: u64,
        king_attack_analyzer: &mut KingAttackRayAnalyzer,
    ) -> (r: u64)
        requires
            enemy_king_pos != 0 ==> old(king_attack_analyzer).num_checking_pieces + 2 * popcount(piece_pos) <= 255,
        ensures
            r == rook_attacks_of(*position, piece_pos, enemy_king_pos),
            final(king_attack_analyzer)@ == rook_analysis(
                old(king_attack_analyzer)@,
                *position,
                piece_pos,
                enemy_king_pos,
            ),
    {
        let ghost own = rook_own(*position, enemy_king_pos);
        let ghost all = piece_pos;
        let mut piece_pos = piece_pos;
        let mut rook_attacks: u64 = 0u64;
        proof {
            lemma_or_assoc(union_over(all, own), 0, 0);
        }
        while piece_pos > 0
            invariant
                own == rook_own(*position, enemy_king_pos),
                rook_attacks | union_over(piece_pos, own) == union_over(all, own),
                rook_analysis(king_attack_analyzer@, *position, piece_pos, enemy_king_pos)
                    == rook_analysis(old(king_attack_analyzer)@, *position, all, enemy_king_pos),
                enemy_king_pos != 0 ==> king_attack_analyzer.num_checking_pieces + 2 * popcount(piece_pos) <= 255,
            decreases piece_pos,
        {
            let sq_ind = lowest_square(piece_pos);
            let ghost acc0 = rook_attacks;
            rook_attacks = rook_attacks | Rook::square_attacks(position, sq_ind, enemy_king_pos);
            proof {
                lemma_and_identities();
                assert(popcount(piece_pos) == 1 + popcount(clear_lsb(piece_pos)));
                lemma_rank_table(sq_ind);
                lemma_union_step(acc0, piece_pos, own);
                lemma_clear_lsb_smaller(piece_pos);
                if enemy_king_pos != 0 {
                    lemma_analyze_ray_count(
                        king_attack_analyzer@,
                        *position,
                        attack_ray_spec(sq_ind, lsb_index(enemy_king_pos)),
                        true,
                        enemy_king_pos,
                    );
                }
            }
            if RANKS[(sq_ind >> 3) as usize] & enemy_king_pos > 0 {
                let king_sq = lowest_square(enemy_king_pos);
                king_attack_analyzer.analyze_king_attack_ray(
                    position,
                    attack_ray(sq_ind as usize, king_sq as usize),
                    true,
                    enemy_king_pos,
                );
            }
            proof {
                if enemy_king_pos != 0 {
                    lemma_analyze_ray_count(
                        king_attack_analyzer@,
                        *position,
                        attack_ray_spec(sq_ind, lsb_index(enemy_king_pos)),
                        false,
                        enemy_king_pos,
                    );
                }
            }
            if FILES[(sq_ind & 7) as usize] & enemy_king_pos > 0 {
                let king_sq = lowest_square(enemy_king_pos);
                king_attack_analyzer.analyze_king_attack_ray(
                    position,
                    attack_ray(sq_ind as usize, king_sq as usize),
                    false,
                    enemy_king_pos,
                );
            }
            piece_pos = piece_pos & (piece_pos - 1);
        }
        proof {
            lemma_or_assoc(rook_attacks, 0, 0);
        }
        rook_attacks & position.check_ray_mask
    }

    /// Adds the moves of the rooks of `piece_pos` for the side to move; returns the attacked
    /// squares and the movement squares.
    pub fn calc_movements(
        position: &Position,
        piece_pos: u64,
        move_list: &mut GameMoveList,
        _enemy_attacked_squares: u64,
        king_attack_analyzer: &mut KingAttackRayAnalyzer,
    ) -> (r: (u64, u64))
        requires
            old(move_list).wf(),
            old(move_list).list_len + pieces_moves(
                *position,
                PieceType::ROOK,
                piece_pos,
                rook_attacks_of(*position, piece_pos, 0) & !position.friendly_occupancy,
                rook_own(*position, 0),
            ).len() <= MAX_MOVES_PER_POSITION,
        ensures
            r.0 == rook_attacks_of(*position, piece_pos, 0),
            r.1 == pieces_movement_squares(
                *position,
                piece_pos,
                rook_attacks_of(*position, piece_pos, 0) & !position.friendly_occupancy,
                rook_own(*position, 0),
            ),
            final(move_list).wf(),
            final(move_list).keys() == old(move_list).keys() + pieces_moves(
                *position,
                PieceType::ROOK,
                piece_pos,
                rook_attacks_of(*position, piece_pos, 0) & !position.friendly_occupancy,
                rook_own(*position, 0),
            ),
            final(king_attack_analyzer)@ == old(king_attack_analyzer)@,
    {
        proof {
            lemma_rook_analysis_no_king(king_attack_analyzer@, *position, piece_pos);
        }
        let attacked_squares = Rook::calc_attacked_squares(
            position,
            piece_pos,
            if position.white_to_move { &PlayerColour::WHITE } else { &PlayerColour::BLACK },
            0,
            king_attack_analyzer,
        );
        let base_movement_squares = attacked_squares & !position.friendly_occupancy;
        let movement_squares = add_pieces_movement(
            move_list,
            position,
            PieceType::ROOK,
            piece_pos,
            base_movement_squares,
        );
        (attacked_squares, movement_squares)
    }
}

} // verus!
