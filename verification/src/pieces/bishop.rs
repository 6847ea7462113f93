use vstd::prelude::*;
use crate::attacks::{calc_file_or_diagonal_attacks, line_attack_set, line_occupancy, attack_ray, attack_ray_spec};
use crate::bitboard::{popcount, lsb_index, clear_lsb, union_over, lemma_clear_lsb_smaller, lemma_union_step, lowest_square, lemma_or_assoc, lemma_and_identities};
use crate::constants::{PieceType, PlayerColour, DIAGONALS, ANTI_DIAGONALS};
use crate::game_move_list::{GameMoveList, MAX_MOVES_PER_POSITION};
use crate::king_attack_ray_analyzer::{KingAttackRayAnalyzer, AnalysisModel, analyze_ray, lemma_analyze_ray_count};
use crate::pieces::piece::{Piece, pieces_moves, pieces_movement_squares, add_pieces_movement};
use crate::position::Position;

verus! {

pub struct Bishop {}

/// Squares a bishop on `s` attacks along its two diagonals (the enemy king does not block).
pub open spec fn bishop_square_attacks(p: Position, s: u64, enemy_king_pos: u64) -> u64 {
    line_attack_set(
        line_occupancy(p, DIAGONALS[s as int], enemy_king_pos),
        s,
        DIAGONALS[s as int],
    ) | line_attack_set(
        line_occupancy(p, ANTI_DIAGONALS[s as int], enemy_king_pos),
        s,
        ANTI_DIAGONALS[s as int],
    )
}

/// The squares a bishop attacks, by square.
pub open spec fn bishop_own(p: Position, enemy_king_pos: u64) -> spec_fn(u64) -> u64 {
    |s: u64| bishop_square_attacks(p, s, enemy_king_pos)
}

/// Squares attacked by the bishops of `b`.
pub open spec fn bishop_attacks_of(p: Position, b: u64, enemy_king_pos: u64) -> u64 {
    union_over(b, bishop_own(p, enemy_king_pos))
}

/// The analysis after examining, for each bishop of `b` (lowest first), the ray to the king along
/// its diagonal and then along its anti-diagonal when the king is on it.
pub open spec fn bishop_analysis(a: AnalysisModel, p: Position, b: u64, enemy_king_pos: u64) -> AnalysisModel
    decreases b,
{
    if b == 0 {
        a
    } else {
        proof {
            lemma_clear_lsb_smaller(b);
        }
        let s = lsb_index(b);
        let ray = attack_ray_spec(s, lsb_index(enemy_king_pos));
        let a1 = if DIAGONALS[s as int] & enemy_king_pos > 0 {
            analyze_ray(a, p, ray, false, enemy_king_pos)
        } else {
            a
        };
        let a2 = if ANTI_DIAGONALS[s as int] & enemy_king_pos > 0 {
            analyze_ray(a1, p, ray, false, enemy_king_pos)
        } else {
            a1
        };
        bishop_analysis(a2, p, clear_lsb(b), enemy_king_pos)
    }
}

/// Without an enemy king there is nothing to analyse.
pub proof fn lemma_bishop_analysis_no_king(a: AnalysisModel, p: Position, b: u64)
    ensures
        bishop_analysis(a, p, b, 0) == a,
    decreases b,
{
    lemma_and_identities();
    if b != 0 {
        lemma_clear_lsb_smaller(b);
        lemma_bishop_analysis_no_king(a, p, clear_lsb(b));
    }
}

/// Examining the bishops of `b` adds at most two checking pieces per bishop.
pub proof fn lemma_bishop_analysis_count(a: AnalysisModel, p: Position, b: u64, enemy_king_pos: u64)
    requires
        a.2 + 2 * popcount(b) <= 255,
    ensures
        a.2 <= bishop_analysis(a, p, b, enemy_king_pos).2 <= a.2 + 2 * popcount(b),
    decreases b,
{
    if b != 0 {
        lemma_clear_lsb_smaller(b);
        let s = lsb_index(b);
        let ray = attack_ray_spec(s, lsb_index(enemy_king_pos));
        let d = DIAGONALS[s as int] & enemy_king_pos > 0;
        let ad = ANTI_DIAGONALS[s as int] & enemy_king_pos > 0;
        lemma_analyze_ray_count(a, p, ray, false, enemy_king_pos);
        let a1 = if d { analyze_ray(a, p, ray, false, enemy_king_pos) } else { a };
        lemma_analyze_ray_count(a1, p, ray, false, enemy_king_pos);
        let a2 = if ad { analyze_ray(a1, p, ray, false, enemy_king_pos) } else { a1 };
        lemma_bishop_analysis_count(a2, p, clear_lsb(b), enemy_king_pos);
    }
}

impl Piece for Bishop {
    fn get_piece_type() -> (r: PieceType)
        ensures
            r == PieceType::BISHOP,
    {
        PieceType::BISHOP
    }
}

impl Bishop {
    /// Squares a bishop on `sq_ind` attacks along its two diagonals.
    pub fn square_attacks(position: &Position, sq_ind: u64, enemy_king_pos: u64) -> (r: u64)
        requires
            sq_ind < 64,
        ensures
            r == bishop_square_attacks(*position, sq_ind, enemy_king_pos),
    {
        calc_file_or_diagonal_attacks(position, sq_ind as usize, DIAGONALS[sq_ind as usize], enemy_king_pos)
            | calc_file_or_diagonal_attacks(position, sq_ind as usize, ANTI_DIAGONALS[sq_ind as usize], enemy_king_pos)
    }

    /// Squares attacked by the bishops of `piece_pos`; for each bishop on a diagonal of the
    /// enemy king, the ray to the king is analysed for checks and pins.
    pub fn calc_attacked_squares(
        position: &Position,
        piece_pos: u64,
        _player: &PlayerColour,
        enemy_king_pos: u64,
        king_attack_analyzer: &mut KingAttackRayAnalyzer,
    ) -> (r: u64)
        requires
            enemy_king_pos != 0 ==> old(king_attack_analyzer).num_checking_pieces + 2 * popcount(piece_pos) <= 255,
        ensures
            r == bishop_attacks_of(*position, piece_pos, enemy_king_pos),
            final(king_attack_analyzer)@ == bishop_analysis(
                old(king_attack_analyzer)@,
                *position,
                piece_pos,
                enemy_king_pos,
            ),
    {
        let ghost own = bishop_own(*position, enemy_king_pos);
        let ghost all = piece_pos;
        let mut piece_pos = piece_pos;
        let mut bishop_attacks: u64 = 0u64;
        proof {
            lemma_or_assoc(union_over(all, own), 0, 0);
        }
        while piece_pos > 0
            invariant
                own == bishop_own(*position, enemy_king_pos),
                bishop_attacks | union_over(piece_pos, own) == union_over(all, own),
                bishop_analysis(king_attack_analyzer@, *position, piece_pos, enemy_king_pos)
                    == bishop_analysis(old(king_attack_analyzer)@, *position, all, enemy_king_pos),
                enemy_king_pos != 0 ==> king_attack_analyzer.num_checking_pieces + 2 * popcount(piece_pos) <= 255,
            decreases piece_pos,
        {
            let sq_ind = lowest_square(piece_pos);
            let ghost acc0 = bishop_attacks;
            bishop_attacks = bishop_attacks | Bishop::square_attacks(position, sq_ind, enemy_king_pos);
            proof {
                lemma_and_identities();
                assert(popcount(piece_pos) == 1 + popcount(clear_lsb(piece_pos)));
                lemma_union_step(acc0, piece_pos, own);
                lemma_clear_lsb_smaller(piece_pos);
                if enemy_king_pos != 0 {
                    lemma_analyze_ray_count(
                        king_attack_analyzer@,
                        *position,
                        attack_ray_spec(sq_ind, lsb_index(enemy_king_pos)),
                        false,
                        enemy_king_pos,
                    );
                }
            }
            if DIAGONALS[sq_ind as usize] & enemy_king_pos > 0 {
                let king_sq = lowest_square(enemy_king_pos);
                king_attack_analyzer.analyze_king_attack_ray(
                    position,
                    attack_ray(sq_ind as usize, king_sq as usize),
                    false,
                    enemy_king_pos,
                );
            }
            proof {
                if enemy_king_pos != 0 {
                    lemma_analyze_ray_count(
                        king_attack_analyzer@,
                        *position,
                        attack_ray_spec(sq_ind, lsb_index(enemy_king_pos)),
                        false,
                        enemy_king_pos,
                    );
                }
            }
            if ANTI_DIAGONALS[sq_ind as usize] & enemy_king_pos > 0 {
                let king_sq = lowest_square(enemy_king_pos);
                king_attack_analyzer.analyze_king_attack_ray(
                    position,
                    attack_ray(sq_ind as usize, king_sq as usize),
                    false,
                    enemy_king_pos,
                );
            }
            piece_pos = piece_pos & (piece_pos - 1);
        }
        proof {
            lemma_or_assoc(bishop_attacks, 0, 0);
        }
        bishop_attacks
    }

    /// Adds the moves of the bishops of `piece_pos` for the side to move; returns the attacked
    /// squares and the movement squares.
    pub fn calc_movements(
        position: &Position,
        piece_pos: u64,
        move_list: &mut GameMoveList,
        _enemy_attacked_squares: u64,
        king_attack_analyzer: &mut KingAttackRayAnalyzer,
    ) -> (r: (u64, u64))
        requires
            old(move_list).wf(),
            old(move_list).list_len + pieces_moves(
                *position,
                PieceType::BISHOP,
                piece_pos,
                bishop_attacks_of(*position, piece_pos, 0) & !position.friendly_occupancy,
                bishop_own(*position, 0),
            ).len() <= MAX_MOVES_PER_POSITION,
        ensures
            r.0 == bishop_attacks_of(*position, piece_pos, 0),
            r.1 == pieces_movement_squares(
                *position,
                piece_pos,
                bishop_attacks_of(*position, piece_pos, 0) & !position.friendly_occupancy,
                bishop_own(*position, 0),
            ),
            final(move_list).wf(),
            final(move_list).keys() == old(move_list).keys() + pieces_moves(
                *position,
                PieceType::BISHOP,
                piece_pos,
                bishop_attacks_of(*position, piece_pos, 0) & !position.friendly_occupancy,
                bishop_own(*position, 0),
            ),
            final(king_attack_analyzer)@ == old(king_attack_analyzer)@,
    {
        proof {
            lemma_bishop_analysis_no_king(king_attack_analyzer@, *position, piece_pos);
        }
        let attacked_squares = Bishop::calc_attacked_squares(
            position,
            piece_pos,
            if position.white_to_move { &PlayerColour::WHITE } else { &PlayerColour::BLACK },
            0,
            king_attack_analyzer,
        );
        let base_movement_squares = attacked_squares & !position.friendly_occupancy;
        let movement_squares = add_pieces_movement(
            move_list,
            position,
            PieceType::BISHOP,
            piece_pos,
            base_movement_squares,
        );
        (attacked_squares, movement_squares)
    }
}

} // verus!
