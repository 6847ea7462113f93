use vstd::prelude::*;
use crate::bitboard::{lsb_index, lemma_and_identities, lemma_union_over_zero, sq_bb};
use crate::constants::{PieceType, PlayerColour, KING_ATTACKS, KNIGHT_ATTACKS};
use crate::game_move_list::{GameMoveList, MAX_MOVES_PER_POSITION};
use crate::king_attack_ray_analyzer::KingAttackRayAnalyzer;
use crate::pieces::king::{King, king_moves};
use crate::pieces::knight::{Knight, knight_attacks_of, knight_own};
use crate::pieces::pawn::{Pawn, pawn_left_attacks, pawn_right_attacks, pawn_movement_moves};
use crate::pieces::piece::{MoveKey, pieces_moves};
use crate::pieces::rook::{Rook, rook_attacks_of, rook_own, lemma_rook_analysis_no_king};
use crate::pieces::bishop::{Bishop, bishop_attacks_of, lemma_bishop_analysis_no_king};
use crate::pieces::queen::{Queen, queen_attacks_of, lemma_queen_analysis_no_king};
use crate::position::Position;
use crate::position_analyzer::{side_pieces, mover};

verus! {

/// The first move generator: the attacks of all pieces, and the moves of pawns, knights, kings
/// and rooks, without the analysis of checks and pins.
pub struct MoveGenerator {}

/// Squares attacked by the pieces of `player`: pawns, knights, king, rooks, bishops, queens.
pub open spec fn basic_attacked_squares(p: Position, player: PlayerColour) -> u64 {
    let s = side_pieces(p, player);
    ((pawn_left_attacks(p, player) & p.check_ray_mask) | (pawn_right_attacks(p, player) & p.check_ray_mask))
        | knight_attacks_of(s.1) | KING_ATTACKS[lsb_index(s.2) as int] | rook_attacks_of(p, s.3, 0)
        | bishop_attacks_of(p, s.4, 0) | queen_attacks_of(p, s.5, 0)
}

/// The moves of the side to move: pawn, knight, king and rook moves.
pub open spec fn basic_moves(p: Position) -> Seq<MoveKey> {
    let s = side_pieces(p, mover(p));
    let enemy = if p.white_to_move {
        basic_attacked_squares(p, PlayerColour::BLACK)
    } else {
        basic_attacked_squares(p, PlayerColour::WHITE)
    };
    pawn_movement_moves(p) + pieces_moves(p, PieceType::KNIGHT, s.1, knight_attacks_of(s.1) & !p.friendly_occupancy, knight_own())
        + king_moves(p, lsb_index(s.2), enemy)
        + pieces_moves(p, PieceType::ROOK, s.3, rook_attacks_of(p, s.3, 0) & !p.friendly_occupancy, rook_own(p, 0))
}

impl MoveGenerator {
    /// Squares attacked by the pieces of `player`.
    pub fn calc_all_attacked_squares(position: &Position, player: PlayerColour) -> (r: u64)
        requires
            side_pieces(*position, player).2 != 0,
        ensures
            r == basic_attacked_squares(*position, player),
    {
        let mut scratch = KingAttackRayAnalyzer::default();
        let (pawns, knights, king, rooks, bishops, queens) = match player {
            PlayerColour::WHITE => (position.wp, position.wn, position.wk, position.wr, position.wb, position.wq),
            PlayerColour::BLACK => (position.bp, position.bn, position.bk, position.br, position.bb, position.bq),
        };
        proof {
            lemma_and_identities();
            lemma_union_over_zero(knights, |s: u64| if KNIGHT_ATTACKS[s as int] & 0u64 > 0 { sq_bb(s) } else { 0 });
        }
        let pawn_attacks = Pawn::calc_attacked_squares(position, pawns, &player, 0, &mut scratch);
        let knight_attacks = Knight::calc_attacked_squares(position, knights, &player, 0, &mut scratch);
        let king_attacks = King::calc_attacked_squares(position, king, &player, 0, &mut scratch);
        proof {
            lemma_rook_analysis_no_king(scratch@, *position, rooks);
        }
        let rook_attacks = Rook::calc_attacked_squares(position, rooks, &player, 0, &mut scratch);
        proof {
            lemma_bishop_analysis_no_king(scratch@, *position, bishops);
        }
        let bishop_attacks = Bishop::calc_attacked_squares(position, bishops, &player, 0, &mut scratch);
        proof {
            lemma_queen_analysis_no_king(scratch@, *position, queens);
        }
        let queen_attacks = Queen::calc_attacked_squares(position, queens, &player, 0, &mut scratch);
        pawn_attacks | knight_attacks | king_attacks | rook_attacks | bishop_attacks | queen_attacks
    }

    /// Adds the pawn, knight, king and rook moves of the side to move, the king kept off the
    /// squares the enemy attacks.
    pub fn calc_legal_moves(position: &Position, move_list: &mut GameMoveList)
        requires
            position.wk != 0,
            position.bk != 0,
            old(move_list).wf(),
            old(move_list).list_len + basic_moves(*position).len() <= MAX_MOVES_PER_POSITION,
        ensures
            final(move_list).wf(),
            final(move_list).keys() == old(move_list).keys() + basic_moves(*position),
    {
        let ghost p = *position;
        let ghost s = side_pieces(p, mover(p));
        let ghost k0 = move_list.keys();
        let mut scratch = KingAttackRayAnalyzer::default();
        let enemy_attacked_squares: u64 = if position.white_to_move {
            MoveGenerator::calc_all_attacked_squares(position, PlayerColour::BLACK)
        } else {
            MoveGenerator::calc_all_attacked_squares(position, PlayerColour::WHITE)
        };
        let (pawns, knights, king, rooks) = if position.white_to_move {
            (position.wp, position.wn, position.wk, position.wr)
        } else {
            (position.bp, position.bn, position.bk, position.br)
        };
        let ghost pm = pawn_movement_moves(p);
        let ghost nm = pieces_moves(p, PieceType::KNIGHT, s.1, knight_attacks_of(s.1) & !p.friendly_occupancy, knight_own());
        let ghost km = king_moves(p, lsb_index(s.2), enemy_attacked_squares);
        let ghost rm = pieces_moves(p, PieceType::ROOK, s.3, rook_attacks_of(p, s.3, 0) & !p.friendly_occupancy, rook_own(p, 0));
        proof {
            assert(basic_moves(p) =~= pm + nm + km + rm);
            assert(move_list.keys().len() == move_list.list_len);
        }
        Pawn::calc_movements(position, pawns, move_list, 0, &mut scratch);
        proof {
            assert(move_list.keys().len() == move_list.list_len);
        }
        Knight::calc_movements(position, knights, move_list, 0, &mut scratch);
        proof {
            assert(move_list.keys().len() == move_list.list_len);
        }
        King::calc_movements(position, king, move_list, enemy_attacked_squares, &mut scratch);
        proof {
            assert(move_list.keys().len() == move_list.list_len);
        }
        Rook::calc_movements(position, rooks, move_list, 0, &mut scratch);
        proof {
            assert(move_list.keys() =~= k0 + (pm + nm + km + rm));
        }
    }
}

} // verus!
