use vstd::prelude::*;
use crate::attacks::{attack_ray, attack_ray_spec, lemma_rank_table};
use crate::bitboard::{popcount, lsb_index, clear_lsb, union_over, lemma_clear_lsb_smaller, lemma_union_step, lowest_square, lemma_or_assoc, lemma_and_identities};
use crate::constants::{PieceType, PlayerColour, RANKS, FILES, DIAGONALS, ANTI_DIAGONALS};
use crate::game_move_list::{GameMoveList, MAX_MOVES_PER_POSITION};
use crate::king_attack_ray_analyzer::{KingAttackRayAnalyzer, AnalysisModel, analyze_ray, lemma_analyze_ray_count};
use crate::pieces::bishop::{Bishop, bishop_square_attacks};
use crate::pieces::piece::{Piece, pieces_moves, pieces_movement_squares, add_pieces_movement};
use crate::pieces::rook::{Rook, rook_square_attacks};
use crate::position::Position;

verus! {

pub struct Queen {}

/// Squares a queen on `s` attacks along its rank, file and diagonals (the enemy king does not block).
pub open spec fn queen_square_attacks(p: Position, s: u64, enemy_king_pos: u64) -> u64 {
    rook_square_attacks(p, s, enemy_king_pos) | bishop_square_attacks(p, s, enemy_king_pos)
}

/// The squares a queen attacks, by square.
pub open spec fn queen_own(p: Position, enemy_king_pos: u64) -> spec_fn(u64) -> u64 {
    |s: u64| queen_square_attacks(p, s, enemy_king_pos)
}

/// Squares attacked by the queens of `b`, within the check mask.
pub open spec fn queen_attacks_of(p: Position, b: u64, enemy_king_pos: u64) -> u64 {
    union_over(b, queen_own(p, enemy_king_pos)) & p.check_ray_mask
}

/// The enemy king is on a line of the queen on `s`.
pub open spec fn queen_sees_king(s: u64, enemy_king_pos: u64) -> bool {
    RANKS[(s >> 3u64) as int] & enemy_king_pos > 0 || FILES[(s & 7u64) as int] & enemy_king_pos > 0
        || DIAGONALS[s as int] & enemy_king_pos > 0 || ANTI_DIAGONALS[s as int] & enemy_king_pos > 0
}

/// The analysis after examining, for each queen of `b` (lowest first) on a line of the king,
/// the ray to the king (horizontal when the king is on the queen's rank).
pub open spec fn queen_analysis(a: AnalysisModel, p: Position, b: u64, enemy_king_pos: u64) -> AnalysisModel
    decreases b,
{
    if b == 0 {
        a
    } else {
        proof {
            lemma_clear_lsb_smaller(b);
        }
        let s = lsb_index(b);
        let a1 = if queen_sees_king(s, enemy_king_pos) {
            analyze_ray(
                a,
                p,
                attack_ray_spec(s, lsb_index(enemy_king_pos)),
                RANKS[(s >> 3u64) as int] & enemy_king_pos > 0,
                enemy_king_pos,
            )
        } else {
            a
        };
        queen_analysis(a1, p, clear_lsb(b), enemy_king_pos)
    }
}

/// Without an enemy king there is nothing to analyse.
pub proof fn lemma_queen_analysis_no_king(a: AnalysisModel, p: Position, b: u64)
    ensures
        queen_analysis(a, p, b, 0) == a,
    decreases b,
{
    lemma_and_identities();
    if b != 0 {
        lemma_clear_lsb_smaller(b);
        lemma_queen_analysis_no_king(a, p, clear_lsb(b));
    }
}

/// Examining the queens of `b` adds at most one checking piece per queen.
pub proof fn lemma_queen_analysis_count(a: AnalysisModel, p: Position, b: u64, enemy_king_pos: u64)
    requires
        a.2 + popcount(b) <= 255,
    ensures
        a.2 <= queen_analysis(a, p, b, enemy_king_pos).2 <= a.2 + popcount(b),
    decreases b,
{
    if b != 0 {
        lemma_clear_lsb_smaller(b);
        let s = lsb_index(b);
        let ray = attack_ray_spec(s, lsb_index(enemy_king_pos));
        let h = RANKS[(s >> 3u64) as int] & enemy_king_pos > 0;
        lemma_analyze_ray_count(a, p, ray, h, enemy_king_pos);
        let a1 = if queen_sees_king(s, enemy_king_pos) { analyze_ray(a, p, ray, h, enemy_king_pos) } else { a };
        lemma_queen_analysis_count(a1, p, clear_lsb(b), enemy_king_pos);
    }
}

impl Piece for Queen {
    fn get_piece_type() -> (r: PieceType)
        ensures
            r == PieceType::QUEEN,
    {
        PieceType::QUEEN
    }
}

impl Queen {
    /// Squares a queen on `sq_ind` attacks along its rank, file and diagonals.
    pub fn square_attacks(position: &Position, sq_ind: u64, enemy_king_pos: u64) -> (r: u64)
        requires
            sq_ind < 64,
        ensures
            r == queen_square_attacks(*position, sq_ind, enemy_king_pos),
    {
        Rook::square_attacks(position, sq_ind, enemy_king_pos) | Bishop::square_attacks(
            position,
            sq_ind,
            enemy_king_pos,
        )
    }

    /// Squares attacked by the queens of `piece_pos`, within the check mask; for each queen on a
    /// line of the enemy king, the ray to the king is analysed for checks and pins.
    pub fn calc_attacked_squares(
        position: &Position,
        piece_pos: u64,
        _player: &PlayerColour,
        enemy_king_pos: u64,
        king_attack_analyzer: &mut KingAttackRayAnalyzer,
    ) -> (r: u64)
        requires
            enemy_king_pos != 0 ==> old(king_attack_analyzer).num_checking_pieces + popcount(piece_pos) <= 255,
        ensures
            r == queen_attacks_of(*position, piece_pos, enemy_king_pos),
            final(king_attack_analyzer)@ == queen_analysis(
                old(king_attack_analyzer)@,
                *position,
                piece_pos,
                enemy_king_pos,
            ),
    {
        let ghost own = queen_own(*position, enemy_king_pos);
        let ghost all = piece_pos;
        let mut piece_pos = piece_pos;
        let mut queen_attacks: u64 = 0u64;
        proof {
            lemma_or_assoc(union_over(all, own), 0, 0);
        }
        while piece_pos > 0
            invariant
                own == queen_own(*position, enemy_king_pos),
                queen_attacks | union_over(piece_pos, own) == union_over(all, own),
                queen_analysis(king_attack_analyzer@, *position, piece_pos, enemy_king_pos)
                    == queen_analysis(old(king_attack_analyzer)@, *position, all, enemy_king_pos),
                enemy_king_pos != 0 ==> king_attack_analyzer.num_checking_pieces + popcount(piece_pos) <= 255,
            decreases piece_pos,
        {
            let sq_ind = lowest_square(piece_pos);
            let ghost acc0 = queen_attacks;
            let cur_piece_attacks = Queen::square_attacks(position, sq_ind, enemy_king_pos);
            queen_attacks = queen_attacks | cur_piece_attacks;
            proof {
                lemma_and_identities();
                assert(popcount(piece_pos) == 1 + popcount(clear_lsb(piece_pos)));
                lemma_rank_table(sq_ind);
                lemma_union_step(acc0, piece_pos, own);
                lemma_clear_lsb_smaller(piece_pos);
            }
            let on_rank = RANKS[(sq_ind >> 3) as usize] & enemy_king_pos > 0;
            if on_rank || FILES[(sq_ind & 7) as usize] & enemy_king_pos > 0
                || DIAGONALS[sq_ind as usize] & enemy_king_pos > 0
                || ANTI_DIAGONALS[sq_ind as usize] & enemy_king_pos > 0 {
                let king_sq = lowest_square(enemy_king_pos);
                let ghost a0 = king_attack_analyzer@;
                king_attack_analyzer.analyze_king_attack_ray(
                    position,
                    attack_ray(sq_ind as usize, king_sq as usize),
                    on_rank,
                    enemy_king_pos,
                );
                proof {
                    lemma_analyze_ray_count(
                        a0,
                        *position,
                        attack_ray_spec(sq_ind, king_sq),
                        on_rank,
                        enemy_king_pos,
                    );
                }
            }
            piece_pos = piece_pos & (piece_pos - 1);
        }
        proof {
            lemma_or_assoc(queen_attacks, 0, 0);
        }
        queen_attacks & position.check_ray_mask
    }

    /// Adds the moves of the queens of `piece_pos` for the side to move; returns the attacked
    /// squares and the movement squares.
    pub fn calc_movements(
        position: &Position,
        piece_pos: u64,
        move_list: &mut GameMoveList,
        _enemy_attacked_squares: u64,
        king_attack_analyzer: &mut KingAttackRayAnalyzer,
    ) -> (r: (u64, u64))
        requires
            old(move_list).wf(),
            old(move_list).list_len + pieces_moves(
                *position,
                PieceType::QUEEN,
                piece_pos,
                queen_attacks_of(*position, piece_pos, 0) & !position.friendly_occupancy,
                queen_own(*position, 0),
            ).len() <= MAX_MOVES_PER_POSITION,
        ensures
            r.0 == queen_attacks_of(*position, piece_pos, 0),
            r.1 == pieces_movement_squares(
                *position,
                piece_pos,
                queen_attacks_of(*position, piece_pos, 0) & !position.friendly_occupancy,
                queen_own(*position, 0),
            ),
            final(move_list).wf(),
            final(move_list).keys() == old(move_list).keys() + pieces_moves(
                *position,
                PieceType::QUEEN,
                piece_pos,
                queen_attacks_of(*position, piece_pos, 0) & !position.friendly_occupancy,
                queen_own(*position, 0),
            ),
            final(king_attack_analyzer)@ == old(king_attack_analyzer)@,
    {
        proof {
            lemma_queen_analysis_no_king(king_attack_analyzer@, *position, piece_pos);
        }
        let attacked_squares = Queen::calc_attacked_squares(
            position,
            piece_pos,
            if position.white_to_move { &PlayerColour::WHITE } else { &PlayerColour::BLACK },
            0,
            king_attack_analyzer,
        );
        let base_movement_squares = attacked_squares & !position.friendly_occupancy;
        let movement_squares = add_pieces_movement(
            move_list,
            position,
            PieceType::QUEEN,
            piece_pos,
            base_movement_squares,
        );
        (attacked_squares, movement_squares)
    }
}

} // verus!
