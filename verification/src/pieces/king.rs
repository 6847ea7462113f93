use vstd::prelude::*;
use crate::bitboard::{bit, bool_mask, lsb_index, lowest_square};
use crate::constants::{PieceType, PlayerColour, C_FILE, G_FILE, KING_ATTACKS};
use crate::game_move_list::{GameMoveList, MAX_MOVES_PER_POSITION};
use crate::king_attack_ray_analyzer::KingAttackRayAnalyzer;
use crate::pieces::piece::{Piece, target_moves, add_piece_movement};
use crate::position::Position;
use crate::position_helper::PositionHelper;

verus! {

pub struct King {}

/// The squares the king on `s` may step to: squares it attacks that the enemy does not, off
/// the check ray (the king cannot hide behind itself on a sliding check) except for the square
/// of an enemy piece.
pub open spec fn king_valid_squares(p: Position, s: u64, enemy_attacked_squares: u64) -> u64 {
    KING_ATTACKS[s as int] & !enemy_attacked_squares & ((bool_mask(p.king_in_check) ^ p.check_ray_mask)
        | p.enemy_occupancy)
}

/// The king's captures.
pub open spec fn king_captures(p: Position, s: u64, enemy_attacked_squares: u64) -> u64 {
    king_valid_squares(p, s, enemy_attacked_squares) & p.enemy_occupancy
}

/// The king's steps to empty squares.
pub open spec fn king_non_captures(p: Position, s: u64, enemy_attacked_squares: u64) -> u64 {
    king_valid_squares(p, s, enemy_attacked_squares) & p.non_occupancy
}

/// The castling target squares of the king on `s`: a remaining castling square on the g-file
/// or c-file that is empty and not attacked, next to an empty, unattacked square the king may
/// step to (f1/f8, or d1/d8), with the king on e1 or e8 and not in check; on the queen side the
/// square beyond (b1/b8) must be empty too.
pub open spec fn king_castling_squares(p: Position, s: u64, enemy_attacked_squares: u64) -> u64 {
    let base = king_non_captures(p, s, enemy_attacked_squares) | (p.castling_rights & bool_mask(
        s == 4 || s == 60,
    ) & bool_mask(!p.king_in_check) & !enemy_attacked_squares & p.non_occupancy);
    ((base & (base << 1u64) & G_FILE) | (base & (base >> 1u64) & (p.non_occupancy << 1u64) & C_FILE))
        & p.castling_rights
}

proof fn lemma_castling_bits(ks: u64, rights: u64, km: u64, e: u64, n: u64, c: u64, j: u64)
    by (bit_vector)
    requires
        ks & !n == 0,
        ks & e == 0,
        c == (((ks | (rights & km & !e & n)) & ((ks | (rights & km & !e & n)) << 1u64) & 0x4040404040404040u64)
            | ((ks | (rights & km & !e & n)) & ((ks | (rights & km & !e & n)) >> 1u64) & (n << 1u64)
            & 0x0404040404040404u64)) & rights,
        j == 2 || j == 6 || j == 58 || j == 62,
    ensures
        (c >> j) & 1 == 1 ==> (rights >> j) & 1 == 1 && (n >> j) & 1 == 1 && (e >> j) & 1 == 0,
        (j == 6 || j == 62) && (c >> j) & 1 == 1 ==> (n >> ((j - 1) as u64)) & 1 == 1 && (e >> ((j - 1) as u64)) & 1
            == 0,
        (j == 2 || j == 58) && (c >> j) & 1 == 1 ==> (n >> ((j + 1) as u64)) & 1 == 1 && (e >> ((j + 1) as u64)) & 1
            == 0 && (n >> ((j - 1) as u64)) & 1 == 1,
        (c >> j) & 1 == 1 || (c >> j) & 1 == 0,
{
}

proof fn lemma_castling_masks(a: u64, e: u64, m: u64, n: u64, r: u64, kb: u64, cb: u64, c: u64, x: u64, y: u64)
    by (bit_vector)
    requires
        c == ((x & 0x4040404040404040u64) | (y & 0x0404040404040404u64)) & r,
    ensures
        ((a & !e & m) & n) & !n == 0,
        ((a & !e & m) & n) & e == 0,
        r & kb & cb & !e & n == r & (kb & cb) & !e & n,
        c & !(r & (0x0404040404040404u64 | 0x4040404040404040u64)) == 0,
{
}

/// Castling only goes to a remaining castling square on the c-file or g-file, along a free,
/// unattacked path: to g1 (g8) with f1 and g1 (f8 and g8) empty and not attacked; to c1 (c8)
/// with b1, c1 and d1 (b8, c8 and d8) empty and c1 and d1 (c8 and d8) not attacked.
pub proof fn lemma_castling_needs_free_path(p: Position, s: u64, enemy_attacked_squares: u64)
    ensures
        king_castling_squares(p, s, enemy_attacked_squares) & !(p.castling_rights & (C_FILE | G_FILE)) == 0,
        forall|j: u64|
            (j == 6 || j == 62) && #[trigger] bit(king_castling_squares(p, s, enemy_attacked_squares), j) ==> {
                &&& bit(p.non_occupancy, j) && bit(p.non_occupancy, (j - 1) as u64)
                &&& !bit(enemy_attacked_squares, j) && !bit(enemy_attacked_squares, (j - 1) as u64)
            },
        forall|j: u64|
            (j == 2 || j == 58) && #[trigger] bit(king_castling_squares(p, s, enemy_attacked_squares), j) ==> {
                &&& bit(p.non_occupancy, (j - 1) as u64) && bit(p.non_occupancy, j) && bit(
                    p.non_occupancy,
                    (j + 1) as u64,
                )
                &&& !bit(enemy_attacked_squares, j) && !bit(enemy_attacked_squares, (j + 1) as u64)
            },
{
    let e = enemy_attacked_squares;
    let ks = king_non_captures(p, s, e);
    let km = bool_mask(s == 4 || s == 60) & bool_mask(!p.king_in_check);
    let c = king_castling_squares(p, s, e);
    let base = ks | (p.castling_rights & bool_mask(s == 4 || s == 60) & bool_mask(!p.king_in_check) & !e
        & p.non_occupancy);
    lemma_castling_masks(
        KING_ATTACKS[s as int],
        e,
        (bool_mask(p.king_in_check) ^ p.check_ray_mask) | p.enemy_occupancy,
        p.non_occupancy,
        p.castling_rights,
        bool_mask(s == 4 || s == 60),
        bool_mask(!p.king_in_check),
        c,
        base & (base << 1u64),
        base & (base >> 1u64) & (p.non_occupancy << 1u64),
    );
    assert forall|j: u64| (j == 6 || j == 62) && #[trigger] bit(c, j) implies {
        &&& bit(p.non_occupancy, j) && bit(p.non_occupancy, (j - 1) as u64)
        &&& !bit(e, j) && !bit(e, (j - 1) as u64)
    } by {
        lemma_castling_bits(ks, p.castling_rights, km, e, p.non_occupancy, c, j);
    }
    assert forall|j: u64| (j == 2 || j == 58) && #[trigger] bit(c, j) implies {
        &&& bit(p.non_occupancy, (j - 1) as u64) && bit(p.non_occupancy, j) && bit(p.non_occupancy, (j + 1) as u64)
        &&& !bit(e, j) && !bit(e, (j + 1) as u64)
    } by {
        lemma_castling_bits(ks, p.castling_rights, km, e, p.non_occupancy, c, j);
    }
}

/// The king's moves: captures first, then steps and castling moves, each lowest square first.
pub open spec fn king_moves(p: Position, s: u64, enemy_attacked_squares: u64) -> Seq<
    (PieceType, u8, u8, PieceType, bool),
> {
    target_moves(PieceType::KING, s as u8, king_captures(p, s, enemy_attacked_squares), true)
        + target_moves(
        PieceType::KING,
        s as u8,
        king_non_captures(p, s, enemy_attacked_squares) | king_castling_squares(p, s, enemy_attacked_squares),
        false,
    )
}

impl Piece for King {
    fn get_piece_type() -> (r: PieceType)
        ensures
            r == PieceType::KING,
    {
        PieceType::KING
    }
}

impl King {
    /// The squares attacked by the king on the lowest set square of `piece_pos`.
    pub fn calc_attacked_squares(
        _position: &Position,
        piece_pos: u64,
        _player: &PlayerColour,
        _enemy_king_pos: u64,
        _king_attack_analyzer: &mut KingAttackRayAnalyzer,
    ) -> (r: u64)
        requires
            piece_pos != 0,
        ensures
            r == KING_ATTACKS[lsb_index(piece_pos) as int],
            *final(_king_attack_analyzer) == *old(_king_attack_analyzer),
    {
        let sq_ind = lowest_square(piece_pos);
        KING_ATTACKS[sq_ind as usize]
    }

    /// Adds the moves of the king on the lowest set square of `piece_pos`: it cannot move into
    /// check, and castles onto a remaining castling square when the squares on the way are free
    /// and unattacked. Returns the attacked squares and the movement squares.
    pub fn calc_movements(
        position: &Position,
        piece_pos: u64,
        move_list: &mut GameMoveList,
        enemy_attacked_squares: u64,
        _king_attack_analyzer: &mut KingAttackRayAnalyzer,
    ) -> (r: (u64, u64))
        requires
            piece_pos != 0,
            old(move_list).wf(),
            old(move_list).list_len + king_moves(*position, lsb_index(piece_pos), enemy_attacked_squares).len()
                <= MAX_MOVES_PER_POSITION,
        ensures
            r.0 == KING_ATTACKS[lsb_index(piece_pos) as int],
            r.1 == king_captures(*position, lsb_index(piece_pos), enemy_attacked_squares)
                | king_non_captures(*position, lsb_index(piece_pos), enemy_attacked_squares)
                | king_castling_squares(*position, lsb_index(piece_pos), enemy_attacked_squares),
            final(move_list).wf(),
            final(move_list).keys() == old(move_list).keys() + king_moves(
                *position,
                lsb_index(piece_pos),
                enemy_attacked_squares,
            ),
            *final(_king_attack_analyzer) == *old(_king_attack_analyzer),
    {
        // Squares not controlled by the enemy side (the king cannot move into check)
        let sq_ind = lowest_square(piece_pos);
        // The king cannot move along the check ray, except onto the checking piece
        let check_ray_mask_for_king = (PositionHelper::bool_to_bitboard(position.king_in_check)
            ^ position.check_ray_mask) | position.enemy_occupancy;
        let king_valid_squares = KING_ATTACKS[sq_ind as usize] & !enemy_attacked_squares
            & check_ray_mask_for_king;
        let king_captures = king_valid_squares & position.enemy_occupancy;
        let king_non_captures = king_valid_squares & position.non_occupancy;
        // Castling needs the king on e1 or e8, not in check, and the castling square and the
        // square next to it free and unattacked
        let castle_base = king_non_captures | (position.castling_rights
            & PositionHelper::bool_to_bitboard(sq_ind == 4 || sq_ind == 60)
            & PositionHelper::bool_to_bitboard(!position.king_in_check) & !enemy_attacked_squares
            & position.non_occupancy);
        // King side: the square next to the castling square (f1, f8) too; queen side: the
        // square next to it (d1, d8) too, and the knight's square (b1, b8) empty
        let short_castle = castle_base & (castle_base << 1) & G_FILE;
        let long_castle = castle_base & (castle_base >> 1) & (position.non_occupancy << 1) & C_FILE;
        let castling_squares = (short_castle | long_castle) & position.castling_rights;
        add_piece_movement(move_list, PieceType::KING, sq_ind as u8, king_captures, true);
        add_piece_movement(
            move_list,
            PieceType::KING,
            sq_ind as u8,
            king_non_captures | castling_squares,
            false,
        );
        (KING_ATTACKS[sq_ind as usize], king_captures | king_non_captures | castling_squares)
    }
}

} // verus!
