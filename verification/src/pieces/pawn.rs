use vstd::prelude::*;
use crate::bitboard::{bit, sq_bb, bool_mask, lsb_index, clear_lsb, union_over, lemma_clear_lsb_smaller, lemma_union_step, lowest_square, lemma_or_assoc, lemma_lsb, lemma_bit_ops};
use crate::constants::{PieceType, PlayerColour, A_FILE, H_FILE, RANK_2, RANK_7};
use crate::game_move_list::{GameMoveList, MAX_MOVES_PER_POSITION};
use crate::king_attack_ray_analyzer::{KingAttackRayAnalyzer, merge_check};
use crate::pieces::piece::{Piece, MoveKey};
use crate::position::Position;
use crate::position_helper::PositionHelper;

verus! {

pub struct Pawn {}

/// Squares attacked forward-left by the pawns of `player` (towards the a-file for white,
/// towards the h-file for black), before the check mask.
pub open spec fn pawn_left_attacks(p: Position, player: PlayerColour) -> u64 {
    match player {
        PlayerColour::WHITE => (p.wp & !A_FILE) << 7u64,
        PlayerColour::BLACK => (p.bp & !H_FILE) >> 7u64,
    }
}

/// Squares attacked forward-right by the pawns of `player`, before the check mask.
pub open spec fn pawn_right_attacks(p: Position, player: PlayerColour) -> u64 {
    match player {
        PlayerColour::WHITE => (p.wp & !H_FILE) << 9u64,
        PlayerColour::BLACK => (p.bp & !A_FILE) >> 9u64,
    }
}

/// The pawns of `player` that attack the enemy king.
pub open spec fn pawn_checkers(p: Position, player: PlayerColour, enemy_king_pos: u64) -> u64 {
    let l = pawn_left_attacks(p, player);
    let r = pawn_right_attacks(p, player);
    match player {
        PlayerColour::WHITE => ((enemy_king_pos >> 7u64) & bool_mask(l & enemy_king_pos > 0)) | ((
        enemy_king_pos >> 9u64) & bool_mask(r & enemy_king_pos > 0)),
        PlayerColour::BLACK => ((enemy_king_pos << 7u64) & bool_mask(l & enemy_king_pos > 0)) | ((
        enemy_king_pos << 9u64) & bool_mask(r & enemy_king_pos > 0)),
    }
}

/// The moves of a pawn to target `t` from `t + offset`: four promotions (knight, bishop, rook,
/// queen) on the first or last rank, one move otherwise.
pub open spec fn pawn_target_moves(t: u64, offset: int, is_capture: bool) -> Seq<MoveKey> {
    let src = (t + offset) as u8;
    if t / 8 == 0 || t / 8 == 7 {
        seq![
            (PieceType::PAWN, src, t as u8, PieceType::KNIGHT, is_capture),
            (PieceType::PAWN, src, t as u8, PieceType::BISHOP, is_capture),
            (PieceType::PAWN, src, t as u8, PieceType::ROOK, is_capture),
            (PieceType::PAWN, src, t as u8, PieceType::QUEEN, is_capture),
        ]
    } else {
        seq![(PieceType::PAWN, src, t as u8, PieceType::NONE, is_capture)]
    }
}

/// The pawn from `t + offset` may move to `t` under its pin mask.
pub open spec fn pawn_move_allowed(p: Position, t: u64, offset: int) -> bool {
    p.pin_ray_masks[t + offset] & sq_bb(t) > 0
}

/// The moves of pawns to the set squares of `squares` (lowest first), each from `offset` away.
pub open spec fn pawn_moves(p: Position, squares: u64, offset: int, is_capture: bool) -> Seq<MoveKey>
    decreases squares,
{
    if squares == 0 {
        Seq::empty()
    } else {
        proof {
            lemma_clear_lsb_smaller(squares);
        }
        let t = lsb_index(squares);
        (if pawn_move_allowed(p, t, offset) {
            pawn_target_moves(t, offset, is_capture)
        } else {
            Seq::empty()
        }) + pawn_moves(p, clear_lsb(squares), offset, is_capture)
    }
}

/// The squares of `squares` a pawn may move to under its pin mask.
pub open spec fn pawn_valid_squares(p: Position, squares: u64, offset: int) -> u64 {
    union_over(squares, |t: u64| if pawn_move_allowed(p, t, offset) { sq_bb(t) } else { 0 })
}

/// Every set square of `squares` has its pawn source on the board.
pub open spec fn sources_on_board(squares: u64, offset: int) -> bool {
    forall|t: u64| t < 64 && bit(squares, t) ==> 0 <= t + offset < 64
}

/// The four kinds of pawn moves of the side to move: captures to the left and right (including
/// en passant), single and double pushes.
pub open spec fn pawn_move_sets(p: Position) -> (u64, u64, u64, u64) {
    if p.white_to_move {
        let l = pawn_left_attacks(p, PlayerColour::WHITE) & p.check_ray_mask;
        let r = pawn_right_attacks(p, PlayerColour::WHITE) & p.check_ray_mask;
        let cap = (l | r) & (p.black_occupancy | p.en_passant_sq);
        let one = (p.wp << 8u64) & p.non_occupancy & p.check_ray_mask;
        let two = ((p.wp & RANK_2) << 16u64) & (one << 8u64) & p.non_occupancy & p.check_ray_mask;
        (l & cap, r & cap, one, two)
    } else {
        let l = pawn_left_attacks(p, PlayerColour::BLACK) & p.check_ray_mask;
        let r = pawn_right_attacks(p, PlayerColour::BLACK) & p.check_ray_mask;
        let cap = (l | r) & (p.white_occupancy | p.en_passant_sq);
        let one = (p.bp >> 8u64) & p.non_occupancy & p.check_ray_mask;
        let two = ((p.bp & RANK_7) >> 16u64) & (one >> 8u64) & p.non_occupancy & p.check_ray_mask;
        (l & cap, r & cap, one, two)
    }
}

/// Source offsets of the four kinds of pawn moves for the side to move.
pub open spec fn pawn_offsets(p: Position) -> (int, int, int, int) {
    if p.white_to_move {
        (-7, -9, -8, -16)
    } else {
        (7, 9, 8, 16)
    }
}

/// All pawn moves of the side to move: left captures, right captures, single and double pushes.
pub open spec fn pawn_movement_moves(p: Position) -> Seq<MoveKey> {
    let s = pawn_move_sets(p);
    let o = pawn_offsets(p);
    pawn_moves(p, s.0, o.0, true) + pawn_moves(p, s.1, o.1, true) + pawn_moves(p, s.2, o.2, false)
        + pawn_moves(p, s.3, o.3, false)
}

/// The squares the pawns of the side to move may move to.
pub open spec fn pawn_movement_squares(p: Position) -> u64 {
    let s = pawn_move_sets(p);
    let o = pawn_offsets(p);
    pawn_valid_squares(p, s.0, o.0) | pawn_valid_squares(p, s.1, o.1) | pawn_valid_squares(p, s.2, o.2)
        | pawn_valid_squares(p, s.3, o.3)
}

proof fn lemma_shift_bounds(x: u64, k: u64, t: u64)
    by (bit_vector)
    requires
        k < 64,
        t < 64,
    ensures
        ((x << k) >> t) & 1u64 == 1u64 ==> t >= k,
        ((x >> k) >> t) & 1u64 == 1u64 ==> t + k < 64,
{
}

impl Piece for Pawn {
    fn get_piece_type() -> (r: PieceType)
        ensures
            r == PieceType::PAWN,
    {
        PieceType::PAWN
    }
}

impl Pawn {
    /// Squares attacked to the forward-left and forward-right of the pawns of `player`, each within
    /// the check mask, and the pawns that attack the enemy king.
    pub fn calc_left_right_attacks(position: &Position, player: &PlayerColour, enemy_king_pos: u64) -> (r: (
        u64,
        u64,
        u64,
    ))
        ensures
            r.0 == pawn_left_attacks(*position, *player) & position.check_ray_mask,
            r.1 == pawn_right_attacks(*position, *player) & position.check_ray_mask,
            r.2 == pawn_checkers(*position, *player, enemy_king_pos),
    {
        let left_attacked: u64;
        let right_attacked: u64;
        let king_check_board: u64;
        proof {
            crate::bitboard::lemma_and_identities();
        }
        match player {
            PlayerColour::WHITE => {
                left_attacked = (position.wp & !A_FILE) << 7;
                right_attacked = (position.wp & !H_FILE) << 9;
                king_check_board = ((enemy_king_pos >> 7)
                    & PositionHelper::bool_to_bitboard(left_attacked & enemy_king_pos > 0)) | ((enemy_king_pos >> 9)
                    & PositionHelper::bool_to_bitboard(right_attacked & enemy_king_pos > 0));
            },
            PlayerColour::BLACK => {
                left_attacked = (position.bp & !H_FILE) >> 7;
                right_attacked = (position.bp & !A_FILE) >> 9;
                king_check_board = ((enemy_king_pos << 7)
                    & PositionHelper::bool_to_bitboard(left_attacked & enemy_king_pos > 0)) | ((enemy_king_pos << 9)
                    & PositionHelper::bool_to_bitboard(right_attacked & enemy_king_pos > 0));
            },
        }
        (left_attacked & position.check_ray_mask, right_attacked & position.check_ray_mask, king_check_board)
    }

    /// Adds the moves of pawns to the set squares of `squares` (lowest first), each from the
    /// square `source_square_offset` away, skipping moves their pin mask forbids; a move to the
    /// first or last rank is added as four promotions. Returns the squares moved to.
    pub fn add_pawn_movement(
        move_list: &mut GameMoveList,
        position: &Position,
        squares: u64,
        source_square_offset: i8,
        is_capture: bool,
    ) -> (r: u64)
        requires
            old(move_list).wf(),
            sources_on_board(squares, source_square_offset as int),
            old(move_list).list_len + pawn_moves(*position, squares, source_square_offset as int, is_capture).len()
                <= MAX_MOVES_PER_POSITION,
        ensures
            r == pawn_valid_squares(*position, squares, source_square_offset as int),
            final(move_list).wf(),
            final(move_list).list_len == old(move_list).list_len + pawn_moves(
                *position,
                squares,
                source_square_offset as int,
                is_capture,
            ).len(),
            final(move_list).keys() == old(move_list).keys() + pawn_moves(
                *position,
                squares,
                source_square_offset as int,
                is_capture,
            ),
    {
        let ghost off = source_square_offset as int;
        let ghost all = squares;
        let ghost p = *position;
        let ghost f = |t: u64| if pawn_move_allowed(p, t, off) { sq_bb(t) } else { 0 };
        let mut squares = squares;
        let mut valid_movements: u64 = 0u64;
        proof {
            lemma_or_assoc(union_over(all, f), 0, 0);
        }
        while squares > 0
            invariant
                p == *position,
                off == source_square_offset as int,
                f == (|t: u64| if pawn_move_allowed(p, t, off) { sq_bb(t) } else { 0 }),
                move_list.wf(),
                sources_on_board(squares, off),
                move_list.keys() + pawn_moves(p, squares, off, is_capture)
                    == old(move_list).keys() + pawn_moves(p, all, off, is_capture),
                move_list.list_len + pawn_moves(p, squares, off, is_capture).len()
                    == old(move_list).list_len + pawn_moves(p, all, off, is_capture).len(),
                old(move_list).list_len + pawn_moves(p, all, off, is_capture).len() <= MAX_MOVES_PER_POSITION,
                valid_movements | union_over(squares, f) == union_over(all, f),
            decreases squares,
        {
            // trailing_zeros() gives square index from 0..63
            let target_square = lowest_square(squares) as u8;
            proof {
                lemma_lsb(squares);
                lemma_clear_lsb_smaller(squares);
                let rest = clear_lsb(squares);
                assert forall|t: u64| t < 64 && bit(rest, t) implies 0 <= t + off < 64 by {
                    assert(bit(squares, t));
                }
                assert(pawn_moves(p, squares, off, is_capture) == (if pawn_move_allowed(p, target_square as u64, off) {
                    pawn_target_moves(target_square as u64, off, is_capture)
                } else {
                    Seq::empty()
                }) + pawn_moves(p, rest, off, is_capture));
            }
            let source_square = (target_square as i8 + source_square_offset) as u8;
            let ghost acc0 = valid_movements;
            let ghost keys0 = move_list.keys();
            if position.pin_ray_masks[source_square as usize] & (1u64 << (target_square as u64)) <= 0 {
                proof {
                    lemma_union_step(acc0, squares, f);
                    crate::bitboard::lemma_and_identities();
                    assert(move_list.keys() + pawn_moves(p, clear_lsb(squares), off, is_capture)
                        =~= keys0 + pawn_moves(p, squares, off, is_capture));
                }
                squares = squares & (squares - 1);
                continue;
            }
            valid_movements = valid_movements | (1u64 << (target_square as u64));
            proof {
                lemma_union_step(acc0, squares, f);
            }
            let target_rank = target_square >> 3;
            proof {
                crate::position_helper::lemma_byte_parts(target_square);
            }
            if target_rank == 0 || target_rank == 7 {
                move_list.add_move(PieceType::PAWN, source_square, target_square, is_capture, PieceType::KNIGHT);
                move_list.add_move(PieceType::PAWN, source_square, target_square, is_capture, PieceType::BISHOP);
                move_list.add_move(PieceType::PAWN, source_square, target_square, is_capture, PieceType::ROOK);
                move_list.add_move(PieceType::PAWN, source_square, target_square, is_capture, PieceType::QUEEN);
            } else {
                move_list.add_move(PieceType::PAWN, source_square, target_square, is_capture, PieceType::NONE);
            }
            proof {
                assert(move_list.keys() + pawn_moves(p, clear_lsb(squares), off, is_capture)
                    =~= keys0 + pawn_moves(p, squares, off, is_capture));
            }
            squares = squares & (squares - 1);
        }
        proof {
            lemma_or_assoc(valid_movements, 0, 0);
            assert(move_list.keys() + pawn_moves(p, 0, off, is_capture) =~= move_list.keys());
        }
        valid_movements
    }

    /// Squares attacked by the pawns of `player`; a pawn giving check is recorded as a check ray
    /// of its own square.
    pub fn calc_attacked_squares(
        position: &Position,
        _piece_pos: u64,
        player: &PlayerColour,
        enemy_king_pos: u64,
        king_attack_analyzer: &mut KingAttackRayAnalyzer,
    ) -> (r: u64)
        requires
            pawn_checkers(*position, *player, enemy_king_pos) > 0 ==> old(king_attack_analyzer).num_checking_pieces < 255,
        ensures
            r == (pawn_left_attacks(*position, *player) & position.check_ray_mask) | (pawn_right_attacks(
                *position,
                *player,
            ) & position.check_ray_mask),
            final(king_attack_analyzer)@ == merge_check(
                old(king_attack_analyzer)@,
                pawn_checkers(*position, *player, enemy_king_pos),
            ),
    {
        let (left_attacked, right_attacked, king_check_board) = Pawn::calc_left_right_attacks(
            position,
            player,
            enemy_king_pos,
        );
        king_attack_analyzer.merge_check_ray(king_check_board);
        left_attacked | right_attacked
    }

    /// Adds the pawn moves of the side to move: captures to the left and right (onto enemy pieces
    /// or the en passant square), single pushes to empty squares and double pushes from the
    /// second (seventh) rank, all within the check mask and the pin masks. Returns the attacked
    /// squares and the movement squares.
    pub fn calc_movements(
        position: &Position,
        _piece_pos: u64,
        move_list: &mut GameMoveList,
        _enemy_attacked_squares: u64,
        _king_attack_analyzer: &mut KingAttackRayAnalyzer,
    ) -> (r: (u64, u64))
        requires
            old(move_list).wf(),
            old(move_list).list_len + pawn_movement_moves(*position).len() <= MAX_MOVES_PER_POSITION,
        ensures
            r.0 == (if position.white_to_move {
                (pawn_left_attacks(*position, PlayerColour::WHITE) & position.check_ray_mask) | (
                pawn_right_attacks(*position, PlayerColour::WHITE) & position.check_ray_mask)
            } else {
                (pawn_left_attacks(*position, PlayerColour::BLACK) & position.check_ray_mask) | (
                pawn_right_attacks(*position, PlayerColour::BLACK) & position.check_ray_mask)
            }),
            r.1 == pawn_movement_squares(*position),
            final(move_list).wf(),
            final(move_list).keys() == old(move_list).keys() + pawn_movement_moves(*position),
            *final(_king_attack_analyzer) == *old(_king_attack_analyzer),
    {
        let ghost p = *position;
        let ghost sets = pawn_move_sets(p);
        let ghost offs = pawn_offsets(p);
        let mut all_valid_movements: u64 = 0u64;
        let attacked_squares: u64;
        proof {
            crate::bitboard::lemma_and_identities();
        }
        if position.white_to_move {
            // Calculations for white
            let (left_attacked, right_attacked, _king_attacks) = Pawn::calc_left_right_attacks(
                position,
                &PlayerColour::WHITE,
                position.bk,
            );
            attacked_squares = left_attacked | right_attacked;
            let possible_capture_squares = position.black_occupancy | position.en_passant_sq;
            let capture_squares = attacked_squares & possible_capture_squares;
            let forward_one_square_moves = (position.wp << 8) & position.non_occupancy & position.check_ray_mask;
            let forward_two_square_moves = ((position.wp & RANK_2) << 16) & (forward_one_square_moves << 8)
                & position.non_occupancy & position.check_ray_mask;
            proof {
                Pawn::lemma_sources(position.wp & !A_FILE, 7, false, position.check_ray_mask, capture_squares, 0);
                Pawn::lemma_sources(position.wp & !H_FILE, 9, false, position.check_ray_mask, capture_squares, 0);
                Pawn::lemma_sources(position.wp, 8, false, position.non_occupancy, position.check_ray_mask, 0);
                Pawn::lemma_sources(position.wp & RANK_2, 16, false, forward_one_square_moves << 8u64,
                    position.non_occupancy, position.check_ray_mask);
            }
            all_valid_movements = all_valid_movements | Pawn::add_pawn_movement(move_list, position, left_attacked & capture_squares, -7, true);
            all_valid_movements = all_valid_movements | Pawn::add_pawn_movement(move_list, position, right_attacked & capture_squares, -9, true);
            all_valid_movements = all_valid_movements | Pawn::add_pawn_movement(move_list, position, forward_one_square_moves, -8, false);
            all_valid_movements = all_valid_movements | Pawn::add_pawn_movement(move_list, position, forward_two_square_moves, -16, false);
        } else {
            // Calculations for black
            let (left_attacked, right_attacked, _king_attacks) = Pawn::calc_left_right_attacks(
                position,
                &PlayerColour::BLACK,
                position.wk,
            );
            attacked_squares = left_attacked | right_attacked;
            let possible_capture_squares = position.white_occupancy | position.en_passant_sq;
            let capture_squares = attacked_squares & possible_capture_squares;
            let forward_one_square_moves = (position.bp >> 8) & position.non_occupancy & position.check_ray_mask;
            let forward_two_square_moves = ((position.bp & RANK_7) >> 16) & (forward_one_square_moves >> 8)
                & position.non_occupancy & position.check_ray_mask;
            proof {
                Pawn::lemma_sources(position.bp & !H_FILE, 7, true, position.check_ray_mask, capture_squares, 0);
                Pawn::lemma_sources(position.bp & !A_FILE, 9, true, position.check_ray_mask, capture_squares, 0);
                Pawn::lemma_sources(position.bp, 8, true, position.non_occupancy, position.check_ray_mask, 0);
                Pawn::lemma_sources(position.bp & RANK_7, 16, true, forward_one_square_moves >> 8u64,
                    position.non_occupancy, position.check_ray_mask);
            }
            all_valid_movements = all_valid_movements | Pawn::add_pawn_movement(move_list, position, left_attacked & capture_squares, 7, true);
            all_valid_movements = all_valid_movements | Pawn::add_pawn_movement(move_list, position, right_attacked & capture_squares, 9, true);
            all_valid_movements = all_valid_movements | Pawn::add_pawn_movement(move_list, position, forward_one_square_moves, 8, false);
            all_valid_movements = all_valid_movements | Pawn::add_pawn_movement(move_list, position, forward_two_square_moves, 16, false);
        }
        proof {
            assert(old(move_list).keys() + pawn_movement_moves(p) =~= old(move_list).keys()
                + pawn_moves(p, sets.0, offs.0, true) + pawn_moves(p, sets.1, offs.1, true)
                + pawn_moves(p, sets.2, offs.2, false) + pawn_moves(p, sets.3, offs.3, false));
            let a = pawn_valid_squares(p, sets.0, offs.0);
            assert(0u64 | a == a) by (bit_vector);
        }
        (attacked_squares, all_valid_movements)
    }

    /// The squares of a shifted pawn board, masked further, have their pawn source on the board.
    pub(crate) proof fn lemma_sources(pawns: u64, k: u64, down: bool, m1: u64, m2: u64, m3: u64)
        requires
            k < 64,
        ensures
            !down ==> sources_on_board(((pawns << k) & m1) & m2, -(k as int)),
            !down ==> sources_on_board((((pawns << k) & m1) & m2) & m3, -(k as int)),
            down ==> sources_on_board(((pawns >> k) & m1) & m2, k as int),
            down ==> sources_on_board((((pawns >> k) & m1) & m2) & m3, k as int),
    {
        let sh = if down { pawns >> k } else { pawns << k };
        let off: int = if down { k as int } else { -(k as int) };
        assert forall|t: u64| t < 64 && bit((sh & m1) & m2, t) implies 0 <= t + off < 64 by {
            lemma_bit_ops(sh & m1, m2, t);
            lemma_bit_ops(sh, m1, t);
            lemma_shift_bounds(pawns, k, t);
        }
        assert forall|t: u64| t < 64 && bit(((sh & m1) & m2) & m3, t) implies 0 <= t + off < 64 by {
            lemma_bit_ops((sh & m1) & m2, m3, t);
            lemma_bit_ops(sh & m1, m2, t);
            lemma_bit_ops(sh, m1, t);
            lemma_shift_bounds(pawns, k, t);
        }
    }
}

} // verus!
