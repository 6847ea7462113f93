use vstd::prelude::*;
use crate::bitboard::{bool_mask, count_ones, lsb_index, popcount, sq_bb, lemma_and_identities, lemma_union_over_zero};
use crate::constants::{PieceType, PlayerColour, KING_ATTACKS, KNIGHT_ATTACKS};
use crate::game_move_list::{GameMoveList, MAX_MOVES_PER_POSITION};
use crate::king_attack_ray_analyzer::{KingAttackRayAnalyzer, AnalysisModel, merge_check};
use crate::pieces::bishop::{Bishop, bishop_attacks_of, bishop_analysis, bishop_own, lemma_bishop_analysis_count};
use crate::pieces::king::{King, king_moves};
use crate::pieces::knight::{Knight, knight_attacks_of, knight_checkers, knight_own};
use crate::pieces::pawn::{Pawn, pawn_left_attacks, pawn_right_attacks, pawn_checkers, pawn_movement_moves};
use crate::pieces::piece::{MoveKey, pieces_moves};
use crate::pieces::queen::{Queen, queen_attacks_of, queen_analysis, queen_own};
use crate::pieces::rook::{Rook, rook_attacks_of, rook_analysis, rook_own, lemma_rook_analysis_count};
use crate::position::{Position, pins_array};
use crate::position_helper::PositionHelper;

verus! {

pub struct PositionAnalyzer {}

/// The pieces of `player`: pawns, knights, king, rooks, bishops, queens.
pub open spec fn side_pieces(p: Position, player: PlayerColour) -> (u64, u64, u64, u64, u64, u64) {
    match player {
        PlayerColour::WHITE => (p.wp, p.wn, p.wk, p.wr, p.wb, p.wq),
        PlayerColour::BLACK => (p.bp, p.bn, p.bk, p.br, p.bb, p.bq),
    }
}

/// The side to move.
pub open spec fn mover(p: Position) -> PlayerColour {
    if p.white_to_move {
        PlayerColour::WHITE
    } else {
        PlayerColour::BLACK
    }
}

/// The side not to move.
pub open spec fn opponent(p: Position) -> PlayerColour {
    if p.white_to_move {
        PlayerColour::BLACK
    } else {
        PlayerColour::WHITE
    }
}

/// Squares attacked by the pieces of `player`, the enemy king not blocking sliding pieces.
pub open spec fn attacked_squares_of(p: Position, player: PlayerColour, enemy_king_pos: u64) -> u64 {
    let s = side_pieces(p, player);
    ((pawn_left_attacks(p, player) & p.check_ray_mask) | (pawn_right_attacks(p, player) & p.check_ray_mask))
        | knight_attacks_of(s.1) | KING_ATTACKS[lsb_index(s.2) as int] | rook_attacks_of(p, s.3, enemy_king_pos)
        | bishop_attacks_of(p, s.4, enemy_king_pos) | queen_attacks_of(p, s.5, enemy_king_pos)
}

/// The analysis of the attacks of `player` on the enemy king: pawn and knight checks, then the
/// rays of rooks, bishops and queens.
pub open spec fn attack_analysis(a: AnalysisModel, p: Position, player: PlayerColour, enemy_king_pos: u64) -> AnalysisModel {
    let s = side_pieces(p, player);
    let a1 = merge_check(merge_check(a, pawn_checkers(p, player, enemy_king_pos)), knight_checkers(s.1, enemy_king_pos));
    queen_analysis(
        bishop_analysis(rook_analysis(a1, p, s.3, enemy_king_pos), p, s.4, enemy_king_pos),
        p,
        s.5,
        enemy_king_pos,
    )
}

/// The number of checking pieces cannot overflow: pawns and knights count at most one check each
/// kind, rooks and bishops at most two per piece, queens at most one per piece.
pub open spec fn checks_fit(num_checking_pieces: u8, p: Position, player: PlayerColour, enemy_king_pos: u64) -> bool {
    let s = side_pieces(p, player);
    enemy_king_pos != 0 ==> num_checking_pieces + 2 + 2 * popcount(s.3) + 2 * popcount(s.4) + popcount(s.5) <= 255
}

/// The analysis of a fresh analyser: no pins, no check, en passant allowed.
pub open spec fn cleared_analysis() -> AnalysisModel {
    (Seq::new(64, |i: int| u64::MAX), u64::MAX, 0, false)
}

/// The position updated from an analysis of the attacks on its king: check and double check,
/// en passant disabled when it would expose the king, the pin masks and the check mask.
pub open spec fn analyzed(p: Position, a: AnalysisModel) -> Position {
    Position {
        king_in_check: a.2 > 0,
        king_in_double_check: a.2 > 1,
        en_passant_sq: p.en_passant_sq & bool_mask(!a.3),
        pin_ray_masks: pins_array(a.0),
        check_ray_mask: a.1,
        ..p
    }
}

/// The king of the side to move.
pub open spec fn own_king(p: Position) -> u64 {
    side_pieces(p, mover(p)).2
}

/// Squares attacked by the side not to move.
pub open spec fn enemy_attacks(p: Position) -> u64 {
    attacked_squares_of(p, opponent(p), own_king(p))
}

/// The position with the attacks on the king of the side to move analysed.
pub open spec fn prepared(p: Position) -> Position {
    analyzed(p, attack_analysis(cleared_analysis(), p, opponent(p), own_king(p)))
}

/// The moves of the side to move of `q`: king moves, then (unless in double check) pawn,
/// knight, rook, bishop and queen moves.
pub open spec fn side_moves(q: Position, enemy_attacked_squares: u64) -> Seq<MoveKey> {
    let s = side_pieces(q, mover(q));
    king_moves(q, lsb_index(s.2), enemy_attacked_squares) + if q.king_in_double_check {
        Seq::empty()
    } else {
        pawn_movement_moves(q) + pieces_moves(q, PieceType::KNIGHT, s.1, knight_attacks_of(s.1) & !q.friendly_occupancy, knight_own())
            + pieces_moves(q, PieceType::ROOK, s.3, rook_attacks_of(q, s.3, 0) & !q.friendly_occupancy, rook_own(q, 0))
            + pieces_moves(q, PieceType::BISHOP, s.4, bishop_attacks_of(q, s.4, 0) & !q.friendly_occupancy, bishop_own(q, 0))
            + pieces_moves(q, PieceType::QUEEN, s.5, queen_attacks_of(q, s.5, 0) & !q.friendly_occupancy, queen_own(q, 0))
    }
}

/// The moves the generator produces for the side to move, in the order it produces them: the
/// king's moves, then (unless the king is in double check) pawn, knight, rook, bishop and queen
/// moves. What they are proved to respect is stated in `legality`.
pub open spec fn generated_moves(p: Position) -> Seq<MoveKey> {
    side_moves(prepared(p), enemy_attacks(p))
}

/// Both kings are on the board and counting checks cannot overflow.
pub open spec fn analysable(p: Position) -> bool {
    &&& p.wk != 0
    &&& p.bk != 0
    &&& checks_fit(0, p, opponent(p), own_king(p))
}

/// In double check only the king can move: every generated move is a king move from the king's
/// square.
pub proof fn lemma_double_check_king_moves_only(p: Position)
    requires
        prepared(p).king_in_double_check,
    ensures
        forall|i: int|
            0 <= i < generated_moves(p).len() ==> (#[trigger] generated_moves(p)[i]).0 == PieceType::KING
                && generated_moves(p)[i].1 == lsb_index(own_king(prepared(p))) as u8,
{
    let q = prepared(p);
    let k = lsb_index(side_pieces(q, mover(q)).2);
    assert(generated_moves(p) =~= king_moves(q, k, enemy_attacks(p)));
}

impl PositionAnalyzer {
    /// Whether the position can be analysed: both kings on the board, and the count of
    /// checking pieces of the side not to move cannot overflow.
    pub fn is_analysable(position: &Position) -> (r: bool)
        ensures
            r == analysable(*position),
    {
        if position.wk == 0 || position.bk == 0 {
            return false;
        }
        let (rooks, bishops, queens) = if position.white_to_move {
            (position.br, position.bb, position.bq)
        } else {
            (position.wr, position.wb, position.wq)
        };
        let total: u32 = 2 + 2 * count_ones(rooks) + 2 * count_ones(bishops) + count_ones(queens);
        total <= 255
    }

    /// Squares attacked by the pieces of `player`; the attacks on `enemy_king_pos` are
    /// recorded in the analyser.
    pub fn calc_all_attacked_squares(
        position: &Position,
        player: &PlayerColour,
        enemy_king_pos: u64,
        king_attack_analyzer: &mut KingAttackRayAnalyzer,
    ) -> (r: u64)
        requires
            side_pieces(*position, *player).2 != 0,
            checks_fit(old(king_attack_analyzer).num_checking_pieces, *position, *player, enemy_king_pos),
        ensures
            r == attacked_squares_of(*position, *player, enemy_king_pos),
            final(king_attack_analyzer)@ == attack_analysis(
                old(king_attack_analyzer)@,
                *position,
                *player,
                enemy_king_pos,
            ),
    {
        let ghost p = *position;
        let ghost s = side_pieces(p, *player);
        let ghost a0 = king_attack_analyzer@;
        let (pawns, knights, king, rooks, bishops, queens) = match player {
            PlayerColour::WHITE => (position.wp, position.wn, position.wk, position.wr, position.wb, position.wq),
            PlayerColour::BLACK => (position.bp, position.bn, position.bk, position.br, position.bb, position.bq),
        };
        proof {
            lemma_and_identities();
            if enemy_king_pos == 0 {
                lemma_union_over_zero(
                    knights,
                    |s: u64| if KNIGHT_ATTACKS[s as int] & 0u64 > 0 { sq_bb(s) } else { 0 },
                );
                assert(pawn_checkers(p, *player, enemy_king_pos) == 0);
            }
        }
        let pawn_attacks = Pawn::calc_attacked_squares(position, pawns, player, enemy_king_pos, king_attack_analyzer);
        let knight_attacks = Knight::calc_attacked_squares(position, knights, player, enemy_king_pos, king_attack_analyzer);
        let king_attacks = King::calc_attacked_squares(position, king, player, enemy_king_pos, king_attack_analyzer);
        let ghost a1 = king_attack_analyzer@;
        proof {
            if enemy_king_pos != 0 {
                lemma_rook_analysis_count(a1, p, rooks, enemy_king_pos);
            }
        }
        let rook_attacks = Rook::calc_attacked_squares(position, rooks, player, enemy_king_pos, king_attack_analyzer);
        let ghost a2 = king_attack_analyzer@;
        proof {
            if enemy_king_pos != 0 {
                lemma_bishop_analysis_count(a2, p, bishops, enemy_king_pos);
            }
        }
        let bishop_attacks = Bishop::calc_attacked_squares(position, bishops, player, enemy_king_pos, king_attack_analyzer);
        let queen_attacks = Queen::calc_attacked_squares(position, queens, player, enemy_king_pos, king_attack_analyzer);
        pawn_attacks | knight_attacks | king_attacks | rook_attacks | bishop_attacks | queen_attacks
    }

    /// Copies the analysis of the attacks on the king into the position: check, double check,
    /// pins and check mask; en passant is removed when the analysis disables it.
    pub fn update_position_from_king_ray_attack_analysis(
        position: &mut Position,
        king_attack_analyzer: &KingAttackRayAnalyzer,
    )
        ensures
            *final(position) == analyzed(*old(position), king_attack_analyzer@),
    {
        position.king_in_check = king_attack_analyzer.num_checking_pieces > 0;
        position.king_in_double_check = king_attack_analyzer.num_checking_pieces > 1;
        position.en_passant_sq = position.en_passant_sq & PositionHelper::bool_to_bitboard(
            !king_attack_analyzer.disable_en_passant,
        );
        position.pin_ray_masks = king_attack_analyzer.pin_ray_masks;
        position.check_ray_mask = king_attack_analyzer.check_ray_mask;
        proof {
            let pins = king_attack_analyzer.pin_ray_masks;
            assert(exists|a: [u64; 64]| a@ == pins@);
            let c = pins_array(pins@);
            assert(c =~= pins);
        }
    }
    /// Adds the moves of the side to move of an analysed position: the king's moves, then,
    /// unless the king is in double check, the pawn, knight, rook, bishop and queen moves.
    fn add_side_moves(
        position: &Position,
        move_list: &mut GameMoveList,
        enemy_attacked_squares: u64,
        king_attack_analyzer: &mut KingAttackRayAnalyzer,
    )
        requires
            side_pieces(*position, mover(*position)).2 != 0,
            old(move_list).wf(),
            old(move_list).list_len + side_moves(*position, enemy_attacked_squares).len() <= MAX_MOVES_PER_POSITION,
        ensures
            final(move_list).wf(),
            final(move_list).keys() == old(move_list).keys() + side_moves(*position, enemy_attacked_squares),
    {
        let ghost q = *position;
        let ghost s = side_pieces(q, mover(q));
        let ghost k0 = move_list.keys();
        let (pawns, knights, king, rooks, bishops, queens) = if position.white_to_move {
            (position.wp, position.wn, position.wk, position.wr, position.wb, position.wq)
        } else {
            (position.bp, position.bn, position.bk, position.br, position.bb, position.bq)
        };
        let ghost km = king_moves(q, lsb_index(s.2), enemy_attacked_squares);
        let ghost pm = pawn_movement_moves(q);
        let ghost nm = pieces_moves(q, PieceType::KNIGHT, s.1, knight_attacks_of(s.1) & !q.friendly_occupancy, knight_own());
        let ghost rm = pieces_moves(q, PieceType::ROOK, s.3, rook_attacks_of(q, s.3, 0) & !q.friendly_occupancy, rook_own(q, 0));
        let ghost bm = pieces_moves(q, PieceType::BISHOP, s.4, bishop_attacks_of(q, s.4, 0) & !q.friendly_occupancy, bishop_own(q, 0));
        let ghost qm = pieces_moves(q, PieceType::QUEEN, s.5, queen_attacks_of(q, s.5, 0) & !q.friendly_occupancy, queen_own(q, 0));
        proof {
            assert(move_list.keys().len() == move_list.list_len);
        }
        King::calc_movements(position, king, move_list, enemy_attacked_squares, king_attack_analyzer);
        if position.king_in_double_check {
            proof {
                assert(side_moves(q, enemy_attacked_squares) =~= km);
            }
            return;
        }
        proof {
            assert(side_moves(q, enemy_attacked_squares) =~= km + (pm + nm + rm + bm + qm));
            assert(move_list.keys().len() == move_list.list_len);
        }
        Pawn::calc_movements(position, pawns, move_list, 0, king_attack_analyzer);
        proof {
            assert(move_list.keys().len() == move_list.list_len);
        }
        Knight::calc_movements(position, knights, move_list, 0, king_attack_analyzer);
        proof {
            assert(move_list.keys().len() == move_list.list_len);
        }
        Rook::calc_movements(position, rooks, move_list, 0, king_attack_analyzer);
        proof {
            assert(move_list.keys().len() == move_list.list_len);
        }
        Bishop::calc_movements(position, bishops, move_list, 0, king_attack_analyzer);
        proof {
            assert(move_list.keys().len() == move_list.list_len);
        }
        Queen::calc_movements(position, queens, move_list, 0, king_attack_analyzer);
        proof {
            assert(move_list.keys() =~= k0 + (km + (pm + nm + rm + bm + qm)));
        }
    }

    /// Generates the legal moves of the side to move into `move_list`, after updating the
    /// position with the checks, pins and en passant restriction that the enemy's attacks on the
    /// king impose.
    pub fn calc_legal_moves(position: &mut Position, move_list: &mut GameMoveList)
        requires
            old(move_list).wf(),
            analysable(*old(position)),
            old(move_list).list_len + generated_moves(*old(position)).len() <= MAX_MOVES_PER_POSITION,
        ensures
            *final(position) == prepared(*old(position)),
            final(move_list).wf(),
            final(move_list).keys() == old(move_list).keys() + generated_moves(*old(position)),
    {
        let mut king_attack_analyzer = KingAttackRayAnalyzer::default();
        proof {
            assert(king_attack_analyzer@.0 =~= cleared_analysis().0);
        }
        let enemy_attacked_squares = if position.white_to_move {
            PositionAnalyzer::calc_all_attacked_squares(position, &PlayerColour::BLACK, position.wk, &mut king_attack_analyzer)
        } else {
            PositionAnalyzer::calc_all_attacked_squares(position, &PlayerColour::WHITE, position.bk, &mut king_attack_analyzer)
        };
        PositionAnalyzer::update_position_from_king_ray_attack_analysis(position, &king_attack_analyzer);
        PositionAnalyzer::add_side_moves(position, move_list, enemy_attacked_squares, &mut king_attack_analyzer);
    }
}

} // verus!
