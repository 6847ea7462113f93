use vstd::prelude::*;
use crate::bitboard::{bits_seq, popcount, lsb_index, clear_lsb, union_over, lemma_clear_lsb_smaller, lowest_square, lemma_union_step, lemma_or_assoc};
use crate::constants::PieceType;
use crate::game_move_list::{GameMoveList, MAX_MOVES_PER_POSITION};
use crate::position::Position;
use crate::constants::KNIGHT_ATTACKS;
use crate::pieces::knight::knight_own;
use crate::pieces::rook::{rook_own, Rook};
use crate::pieces::bishop::{bishop_own, Bishop};
use crate::pieces::queen::{queen_own, Queen};

verus! {

/// What a move plays: piece, source, target, promotion piece, capture.
pub type MoveKey = (PieceType, u8, u8, PieceType, bool);

/// A kind of chess piece.
pub trait Piece {
    /// The piece type of this kind.
    fn get_piece_type() -> PieceType;
}

/// One move of `piece` from `source` to each set square of `targets`, in ascending order.
pub open spec fn target_moves(piece: PieceType, source: u8, targets: u64, is_capture: bool) -> Seq<MoveKey> {
    bits_seq(targets).map_values(|t: u64| (piece, source, t as u8, PieceType::NONE, is_capture))
}

/// The squares a piece on `s` may move to: squares of `base` that its pin mask and its own
/// attacks `own` allow.
pub open spec fn square_movements(p: Position, base: u64, own: u64, s: u64) -> u64 {
    base & p.pin_ray_masks[s as int] & own
}

/// The moves of a piece on `s` with movement squares `cur`: captures first, then quiet moves.
pub open spec fn square_moves(p: Position, piece: PieceType, s: u64, cur: u64) -> Seq<MoveKey> {
    target_moves(piece, s as u8, cur & p.enemy_occupancy, true) + target_moves(
        piece,
        s as u8,
        cur & p.non_occupancy,
        false,
    )
}

/// The moves of the pieces on the set squares of `b`, lowest square first, where a piece on
/// `s` attacks `own(s)` and may only move to `base`.
pub open spec fn pieces_moves(p: Position, piece: PieceType, b: u64, base: u64, own: spec_fn(u64) -> u64) -> Seq<MoveKey>
    decreases b,
{
    if b == 0 {
        Seq::empty()
    } else {
        proof {
            lemma_clear_lsb_smaller(b);
        }
        square_moves(p, piece, lsb_index(b), square_movements(p, base, own(lsb_index(b)), lsb_index(b)))
            + pieces_moves(p, piece, clear_lsb(b), base, own)
    }
}

/// The union of the movement squares of the pieces on `b`.
pub open spec fn pieces_movement_squares(p: Position, b: u64, base: u64, own: spec_fn(u64) -> u64) -> u64 {
    union_over(b, |s: u64| square_movements(p, base, own(s), s))
}

/// Adds a move of the piece from `source_square` to every set square of `target_squares`,
/// lowest square first.
pub fn add_piece_movement(
    move_list: &mut GameMoveList,
    piece_type: PieceType,
    source_square: u8,
    target_squares: u64,
    is_capture: bool,
)
    requires
        old(move_list).wf(),
        old(move_list).list_len + popcount(target_squares) <= MAX_MOVES_PER_POSITION,
    ensures
        final(move_list).wf(),
        final(move_list).list_len == old(move_list).list_len + popcount(target_squares),
        final(move_list).keys() == old(move_list).keys() + target_moves(
            piece_type,
            source_square,
            target_squares,
            is_capture,
        ),
{
    let mut target_squares = target_squares;
    let ghost all = target_squares;
    while target_squares > 0
        invariant
            move_list.wf(),
            move_list.list_len + popcount(target_squares) <= MAX_MOVES_PER_POSITION,
            move_list.keys() + target_moves(piece_type, source_square, target_squares, is_capture)
                == old(move_list).keys() + target_moves(piece_type, source_square, all, is_capture),
            move_list.list_len + popcount(target_squares) == old(move_list).list_len + popcount(all),
        decreases target_squares,
    {
        // trailing_zeros() gives square index from 0..63
        let target_square_index = lowest_square(target_squares);
        let ghost before = move_list.keys();
        move_list.add_move(piece_type, source_square, target_square_index as u8, is_capture, PieceType::NONE);
        proof {
            lemma_clear_lsb_smaller(target_squares);
            let rest = clear_lsb(target_squares);
            let k = (piece_type, source_square, target_square_index as u8, PieceType::NONE, is_capture);
            assert(target_moves(piece_type, source_square, target_squares, is_capture)
                =~= seq![k] + target_moves(piece_type, source_square, rest, is_capture));
            assert(move_list.keys() + target_moves(piece_type, source_square, rest, is_capture)
                =~= before + target_moves(piece_type, source_square, target_squares, is_capture));
        }
        target_squares = target_squares & (target_squares - 1);
    }
    proof {
        assert(target_moves(piece_type, source_square, 0, is_capture) =~= Seq::<MoveKey>::empty());
        assert(move_list.keys() + Seq::<MoveKey>::empty() =~= move_list.keys());
    }
}

/// Adds the moves of the piece on `sq_ind` to the squares `cur`: captures, then quiet moves.
pub fn add_square_movement(
    move_list: &mut GameMoveList,
    position: &Position,
    piece_type: PieceType,
    sq_ind: u64,
    cur: u64,
)
    requires
        sq_ind < 64,
        old(move_list).wf(),
        old(move_list).list_len + square_moves(*position, piece_type, sq_ind, cur).len()
            <= MAX_MOVES_PER_POSITION,
    ensures
        final(move_list).wf(),
        final(move_list).keys() == old(move_list).keys() + square_moves(*position, piece_type, sq_ind, cur),
        final(move_list).list_len == old(move_list).list_len + square_moves(*position, piece_type, sq_ind, cur).len(),
{
    let capture_squares = cur & position.enemy_occupancy;
    let non_capture_squares = cur & position.non_occupancy;
    add_piece_movement(move_list, piece_type, sq_ind as u8, capture_squares, true);
    add_piece_movement(move_list, piece_type, sq_ind as u8, non_capture_squares, false);
    proof {
        assert(old(move_list).keys() + square_moves(*position, piece_type, sq_ind, cur)
            =~= old(move_list).keys() + target_moves(piece_type, sq_ind as u8, capture_squares, true)
            + target_moves(piece_type, sq_ind as u8, non_capture_squares, false));
    }
}

/// The squares a piece of the side to move attacks from each square, for the pieces whose
/// movement follows their attacks (knight, rook, bishop, queen; nothing for the others).
pub open spec fn mover_own(piece_type: PieceType, p: Position) -> spec_fn(u64) -> u64 {
    match piece_type {
        PieceType::KNIGHT => knight_own(),
        PieceType::ROOK => rook_own(p, 0),
        PieceType::BISHOP => bishop_own(p, 0),
        PieceType::QUEEN => queen_own(p, 0),
        _ => |s: u64| 0u64,
    }
}

/// The squares the piece on `sq_ind` attacks.
pub(crate) fn own_attacks(piece_type: PieceType, position: &Position, sq_ind: u64) -> (r: u64)
    requires
        sq_ind < 64,
    ensures
        r == mover_own(piece_type, *position)(sq_ind),
{
    match piece_type {
        PieceType::KNIGHT => KNIGHT_ATTACKS[sq_ind as usize],
        PieceType::ROOK => Rook::square_attacks(position, sq_ind, 0),
        PieceType::BISHOP => Bishop::square_attacks(position, sq_ind, 0),
        PieceType::QUEEN => Queen::square_attacks(position, sq_ind, 0),
        _ => 0,
    }
}

/// Adds the moves of the pieces on `piece_pos`, lowest square first: each piece may move to
/// the squares of `base` that its own attacks and its pin mask allow, captures first. Returns
/// the union of the movement squares.
pub fn add_pieces_movement(
    move_list: &mut GameMoveList,
    position: &Position,
    piece_type: PieceType,
    piece_pos: u64,
    base_movement_squares: u64,
) -> (movement: u64)
    requires
        old(move_list).wf(),
        old(move_list).list_len + pieces_moves(
            *position,
            piece_type,
            piece_pos,
            base_movement_squares,
            mover_own(piece_type, *position),
        ).len() <= MAX_MOVES_PER_POSITION,
    ensures
        movement == pieces_movement_squares(
            *position,
            piece_pos,
            base_movement_squares,
            mover_own(piece_type, *position),
        ),
        final(move_list).wf(),
        final(move_list).keys() == old(move_list).keys() + pieces_moves(
            *position,
            piece_type,
            piece_pos,
            base_movement_squares,
            mover_own(piece_type, *position),
        ),
{
    let ghost own = mover_own(piece_type, *position);
    let ghost all = piece_pos;
    let ghost p = *position;
    let mut movement_squares: u64 = 0u64;
    let mut piece_pos = piece_pos;
    proof {
        lemma_or_assoc(pieces_movement_squares(p, all, base_movement_squares, own), 0, 0);
    }
    while piece_pos > 0
        invariant
            p == *position,
            own == mover_own(piece_type, p),
            move_list.wf(),
            move_list.keys() + pieces_moves(p, piece_type, piece_pos, base_movement_squares, own)
                == old(move_list).keys() + pieces_moves(p, piece_type, all, base_movement_squares, own),
            move_list.list_len + pieces_moves(p, piece_type, piece_pos, base_movement_squares, own).len()
                == old(move_list).list_len + pieces_moves(p, piece_type, all, base_movement_squares, own).len(),
            old(move_list).list_len + pieces_moves(p, piece_type, all, base_movement_squares, own).len()
                <= MAX_MOVES_PER_POSITION,
            movement_squares | pieces_movement_squares(p, piece_pos, base_movement_squares, own)
                == pieces_movement_squares(p, all, base_movement_squares, own),
        decreases piece_pos,
    {
        let sq_ind = lowest_square(piece_pos);
        let own_squares = own_attacks(piece_type, position, sq_ind);
        let cur = base_movement_squares & position.pin_ray_masks[sq_ind as usize] & own_squares;
        let ghost acc0 = movement_squares;
        let ghost keys0 = move_list.keys();
        movement_squares = movement_squares | cur;
        add_square_movement(move_list, position, piece_type, sq_ind, cur);
        proof {
            lemma_clear_lsb_smaller(piece_pos);
            lemma_union_step(acc0, piece_pos, |s: u64| square_movements(p, base_movement_squares, own(s), s));
            let rest = clear_lsb(piece_pos);
            assert(pieces_moves(p, piece_type, piece_pos, base_movement_squares, own)
                == square_moves(p, piece_type, sq_ind, cur)
                + pieces_moves(p, piece_type, rest, base_movement_squares, own));
            assert(move_list.keys() + pieces_moves(p, piece_type, rest, base_movement_squares, own)
                =~= keys0 + pieces_moves(p, piece_type, piece_pos, base_movement_squares, own));
        }
        piece_pos = piece_pos & (piece_pos - 1);
    }
    proof {
        lemma_or_assoc(movement_squares, 0, 0);
        assert(move_list.keys() + pieces_moves(p, piece_type, 0, base_movement_squares, own)
            =~= move_list.keys());
    }
    movement_squares
}

} // verus!
