use vstd::prelude::*;
use crate::bitboard::{bit, bits_seq, bool_mask, lsb_index, clear_lsb, lemma_bits_seq_sorted, lemma_bit_ops, lemma_bit_zero, lemma_clear_lsb_smaller};
use crate::constants::{PieceType, KING_ATTACKS};
use crate::pieces::king::{king_moves, king_captures, king_non_captures, king_castling_squares, king_valid_squares};
use crate::pieces::pawn::{pawn_moves, pawn_target_moves, pawn_move_allowed, pawn_move_sets, pawn_offsets, pawn_movement_moves, sources_on_board};
use crate::pieces::piece::{MoveKey, pieces_moves, square_moves, square_movements, target_moves};
use crate::position::Position;
use crate::position_analyzer::{analysable, generated_moves, side_moves, side_pieces, mover, prepared, enemy_attacks};

verus! {

/// Each move to the squares of `targets` is a move of `piece` from `source` to a set square
/// of `targets`.
proof fn lemma_target_moves_elems(piece: PieceType, source: u8, targets: u64, is_capture: bool)
    ensures
        forall|i: int|
            0 <= i < target_moves(piece, source, targets, is_capture).len() ==> {
                let k = #[trigger] target_moves(piece, source, targets, is_capture)[i];
                &&& k.0 == piece
                &&& k.1 == source
                &&& k.3 == PieceType::NONE
                &&& k.2 == bits_seq(targets)[i] as u8
                &&& bits_seq(targets)[i] < 64
                &&& bit(targets, bits_seq(targets)[i])
            },
{
    lemma_bits_seq_sorted(targets);
}

/// The moves of the pieces on `b` are all moves of `piece`.
proof fn lemma_pieces_moves_piece(p: Position, piece: PieceType, b: u64, base: u64, own: spec_fn(u64) -> u64)
    ensures
        forall|i: int| 0 <= i < pieces_moves(p, piece, b, base, own).len() ==> (#[trigger] pieces_moves(p, piece, b, base, own)[i]).0 == piece,
    decreases b,
{
    if b != 0 {
        lemma_clear_lsb_smaller(b);
        let s = lsb_index(b);
        let cur = square_movements(p, base, own(s), s);
        lemma_target_moves_elems(piece, s as u8, cur & p.enemy_occupancy, true);
        lemma_target_moves_elems(piece, s as u8, cur & p.non_occupancy, false);
        lemma_pieces_moves_piece(p, piece, clear_lsb(b), base, own);
        let head = square_moves(p, piece, s, cur);
        let rest = pieces_moves(p, piece, clear_lsb(b), base, own);
        assert(pieces_moves(p, piece, b, base, own) == head + rest);
        assert forall|i: int| 0 <= i < head.len() implies (#[trigger] head[i]).0 == piece by {
            let a = target_moves(piece, s as u8, cur & p.enemy_occupancy, true);
            if i >= a.len() {
                assert(head[i] == target_moves(piece, s as u8, cur & p.non_occupancy, false)[i - a.len()]);
            }
        }
        assert forall|i: int| 0 <= i < (head + rest).len() implies (#[trigger] (head + rest)[i]).0 == piece by {
            if i >= head.len() {
                assert((head + rest)[i] == rest[i - head.len()]);
            }
        }
    }
}

/// The moves of pawns to the squares of `squares` are all pawn moves.
proof fn lemma_pawn_moves_piece(p: Position, squares: u64, offset: int, is_capture: bool)
    ensures
        forall|i: int| 0 <= i < pawn_moves(p, squares, offset, is_capture).len() ==> (#[trigger] pawn_moves(p, squares, offset, is_capture)[i]).0 == PieceType::PAWN,
    decreases squares,
{
    if squares != 0 {
        lemma_clear_lsb_smaller(squares);
        let t = lsb_index(squares);
        lemma_pawn_moves_piece(p, clear_lsb(squares), offset, is_capture);
        let head = if pawn_move_allowed(p, t, offset) {
            pawn_target_moves(t, offset, is_capture)
        } else {
            Seq::empty()
        };
        let rest = pawn_moves(p, clear_lsb(squares), offset, is_capture);
        assert(pawn_moves(p, squares, offset, is_capture) == head + rest);
        assert forall|i: int| 0 <= i < (head + rest).len() implies (#[trigger] (head + rest)[i]).0 == PieceType::PAWN by {
            if i >= head.len() {
                assert((head + rest)[i] == rest[i - head.len()]);
            }
        }
    }
}

/// The squares the king may step or castle to are not attacked by the other side.
proof fn lemma_king_targets_safe(a: u64, e: u64, m: u64, en: u64, n: u64, r: u64, kb: u64, cb: u64, v: u64, nc: u64, base: u64, cap: u64, quiet: u64)
    by (bit_vector)
    requires
        v == a & !e & m,
        cap == v & en,
        nc == v & n,
        base == nc | (r & kb & cb & !e & n),
        quiet == nc | (((base & (base << 1u64) & 0x4040404040404040u64) | (base & (base >> 1u64) & (n << 1u64)
            & 0x0404040404040404u64)) & r),
    ensures
        cap & e == 0,
        quiet & e == 0,
{
}

/// A set square of a board that shares no square with `e` is not a square of `e`.
proof fn lemma_outside(x: u64, e: u64, t: u64)
    requires
        x & e == 0,
        t < 64,
        bit(x, t),
    ensures
        !bit(e, t),
{
    lemma_bit_ops(x, e, t);
    lemma_bit_zero(t);
}

/// The king never moves onto a square that the other side attacks (sliding pieces seen through
/// the king, so that the king cannot step back along the line of a check), castling included:
/// every generated king move goes from the king's square to a square outside `enemy_attacks`.
#[verifier::rlimit(40)]
pub proof fn lemma_king_never_moves_into_attack(p: Position)
    ensures
        forall|i: int|
            0 <= i < generated_moves(p).len() && (#[trigger] generated_moves(p)[i]).0 == PieceType::KING ==> {
                &&& generated_moves(p)[i].1 == lsb_index(side_pieces(prepared(p), mover(prepared(p))).2) as u8
                &&& !bit(enemy_attacks(p), generated_moves(p)[i].2 as u64)
                &&& generated_moves(p)[i].3 == PieceType::NONE
            },
{
    let q = prepared(p);
    let sp = side_pieces(q, mover(q));
    let s = lsb_index(sp.2);
    let e = enemy_attacks(p);
    let cap = king_captures(q, s, e);
    let quiet = king_non_captures(q, s, e) | king_castling_squares(q, s, e);
    lemma_king_targets_safe(
        KING_ATTACKS[s as int],
        e,
        (bool_mask(q.king_in_check) ^ q.check_ray_mask) | q.enemy_occupancy,
        q.enemy_occupancy,
        q.non_occupancy,
        q.castling_rights,
        bool_mask(s == 4 || s == 60),
        bool_mask(!q.king_in_check),
        king_valid_squares(q, s, e),
        king_non_captures(q, s, e),
        king_non_captures(q, s, e) | (q.castling_rights & bool_mask(s == 4 || s == 60) & bool_mask(!q.king_in_check)
            & !e & q.non_occupancy),
        cap,
        quiet,
    );
    let a = target_moves(PieceType::KING, s as u8, cap, true);
    let b = target_moves(PieceType::KING, s as u8, quiet, false);
    lemma_target_moves_elems(PieceType::KING, s as u8, cap, true);
    lemma_target_moves_elems(PieceType::KING, s as u8, quiet, false);
    let km = king_moves(q, s, e);
    assert(km == a + b);
    let rest = side_moves(q, e).subrange(km.len() as int, side_moves(q, e).len() as int);
    assert(side_moves(q, e) == km + rest);
    // Every move after the king's moves is a move of another piece
    assert forall|i: int| 0 <= i < rest.len() implies (#[trigger] rest[i]).0 != PieceType::KING by {
        if !q.king_in_double_check {
            let sets = pawn_move_sets(q);
            let offs = pawn_offsets(q);
            lemma_pawn_moves_piece(q, sets.0, offs.0, true);
            lemma_pawn_moves_piece(q, sets.1, offs.1, true);
            lemma_pawn_moves_piece(q, sets.2, offs.2, false);
            lemma_pawn_moves_piece(q, sets.3, offs.3, false);
            let pm = pawn_movement_moves(q);
            assert forall|j: int| 0 <= j < pm.len() implies (#[trigger] pm[j]).0 == PieceType::PAWN by {
                let l0 = pawn_moves(q, sets.0, offs.0, true);
                let l1 = pawn_moves(q, sets.1, offs.1, true);
                let l2 = pawn_moves(q, sets.2, offs.2, false);
                let l3 = pawn_moves(q, sets.3, offs.3, false);
                assert(pm == l0 + l1 + l2 + l3);
                if j < l0.len() {
                    assert(pm[j] == l0[j]);
                } else if j < l0.len() + l1.len() {
                    assert(pm[j] == l1[j - l0.len()]);
                } else if j < l0.len() + l1.len() + l2.len() {
                    assert(pm[j] == l2[j - l0.len() - l1.len()]);
                } else {
                    assert(pm[j] == l3[j - l0.len() - l1.len() - l2.len()]);
                }
            }
            let others = rest.subrange(pm.len() as int, rest.len() as int);
            let b1 = crate::pieces::knight::knight_attacks_of(sp.1) & !q.friendly_occupancy;
            let b3 = crate::pieces::rook::rook_attacks_of(q, sp.3, 0) & !q.friendly_occupancy;
            let b4 = crate::pieces::bishop::bishop_attacks_of(q, sp.4, 0) & !q.friendly_occupancy;
            let b5 = crate::pieces::queen::queen_attacks_of(q, sp.5, 0) & !q.friendly_occupancy;
            let n1 = pieces_moves(q, PieceType::KNIGHT, sp.1, b1, crate::pieces::knight::knight_own());
            let n3 = pieces_moves(q, PieceType::ROOK, sp.3, b3, crate::pieces::rook::rook_own(q, 0));
            let n4 = pieces_moves(q, PieceType::BISHOP, sp.4, b4, crate::pieces::bishop::bishop_own(q, 0));
            let n5 = pieces_moves(q, PieceType::QUEEN, sp.5, b5, crate::pieces::queen::queen_own(q, 0));
            lemma_pieces_moves_piece(q, PieceType::KNIGHT, sp.1, b1, crate::pieces::knight::knight_own());
            lemma_pieces_moves_piece(q, PieceType::ROOK, sp.3, b3, crate::pieces::rook::rook_own(q, 0));
            lemma_pieces_moves_piece(q, PieceType::BISHOP, sp.4, b4, crate::pieces::bishop::bishop_own(q, 0));
            lemma_pieces_moves_piece(q, PieceType::QUEEN, sp.5, b5, crate::pieces::queen::queen_own(q, 0));
            assert(rest == pm + n1 + n3 + n4 + n5);
            let r = pm + n1 + n3 + n4 + n5;
            if i < pm.len() {
                assert(r[i] == pm[i]);
            } else if i < pm.len() + n1.len() {
                assert(r[i] == n1[i - pm.len()]);
            } else if i < pm.len() + n1.len() + n3.len() {
                assert(r[i] == n3[i - pm.len() - n1.len()]);
            } else if i < pm.len() + n1.len() + n3.len() + n4.len() {
                assert(r[i] == n4[i - pm.len() - n1.len() - n3.len()]);
            } else {
                assert(r[i] == n5[i - pm.len() - n1.len() - n3.len() - n4.len()]);
            }
        }
    }
    assert forall|i: int|
        0 <= i < generated_moves(p).len() && (#[trigger] generated_moves(p)[i]).0 == PieceType::KING implies {
            &&& generated_moves(p)[i].1 == s as u8
            &&& !bit(e, generated_moves(p)[i].2 as u64)
            &&& generated_moves(p)[i].3 == PieceType::NONE
        } by {
        let lm = generated_moves(p);
        if i >= km.len() {
            assert(lm[i] == rest[i - km.len()]);
        } else if i < a.len() {
            assert(lm[i] == a[i]);
            let t = bits_seq(cap)[i];
            lemma_outside(cap, e, t);
            assert((t as u8) as u64 == t);
        } else {
            assert(lm[i] == b[i - a.len()]);
            let t = bits_seq(quiet)[i - a.len()];
            lemma_outside(quiet, e, t);
            assert((t as u8) as u64 == t);
        }
    }
}

/// The target of a move is on the board; a capture lands on an enemy piece (a pawn's also on
/// the en passant square), any other move on an empty square.
pub open spec fn lands_rightly(q: Position, k: MoveKey) -> bool {
    &&& (k.2 as u64) < 64
    &&& k.4 ==> bit(q.enemy_occupancy, k.2 as u64) || (k.0 == PieceType::PAWN && bit(q.en_passant_sq, k.2 as u64))
    &&& !k.4 ==> bit(q.non_occupancy, k.2 as u64)
}

/// All moves of a sequence land rightly.
pub open spec fn all_land_rightly(q: Position, ks: Seq<MoveKey>) -> bool {
    forall|i: int| 0 <= i < ks.len() ==> lands_rightly(q, #[trigger] ks[i])
}

proof fn lemma_concat_land(q: Position, x: Seq<MoveKey>, y: Seq<MoveKey>)
    requires
        all_land_rightly(q, x),
        all_land_rightly(q, y),
    ensures
        all_land_rightly(q, x + y),
{
    assert forall|i: int| 0 <= i < (x + y).len() implies lands_rightly(q, #[trigger] (x + y)[i]) by {
        if i < x.len() {
            assert((x + y)[i] == x[i]);
        } else {
            assert((x + y)[i] == y[i - x.len()]);
        }
    }
}

/// Moves to the squares of `targets`, all empty (or all enemy pieces for captures), land
/// rightly.
proof fn lemma_target_moves_land(q: Position, piece: PieceType, source: u8, targets: u64, is_capture: bool)
    requires
        is_capture ==> targets & !q.enemy_occupancy == 0,
        !is_capture ==> targets & !q.non_occupancy == 0,
    ensures
        all_land_rightly(q, target_moves(piece, source, targets, is_capture)),
{
    lemma_target_moves_elems(piece, source, targets, is_capture);
    let tm = target_moves(piece, source, targets, is_capture);
    assert forall|i: int| 0 <= i < tm.len() implies lands_rightly(q, #[trigger] tm[i]) by {
        let k = tm[i];
        let t = bits_seq(targets)[i];
        assert(k.2 == t as u8 && t < 64);
        assert((t as u8) as u64 == t);
        let o = if is_capture { q.enemy_occupancy } else { q.non_occupancy };
        lemma_bit_ops(targets, !o, t);
        lemma_bit_ops(o, o, t);
        lemma_bit_zero(t);
    }
}

proof fn lemma_masks_inside(x: u64, o: u64)
    by (bit_vector)
    ensures
        (x & o) & !o == 0,
{
}

/// The moves of the pieces on `b` land rightly.
proof fn lemma_pieces_moves_land(q: Position, piece: PieceType, b: u64, base: u64, own: spec_fn(u64) -> u64)
    ensures
        all_land_rightly(q, pieces_moves(q, piece, b, base, own)),
    decreases b,
{
    if b == 0 {
        assert(all_land_rightly(q, pieces_moves(q, piece, b, base, own)));
    } else {
        lemma_clear_lsb_smaller(b);
        let s = lsb_index(b);
        let cur = square_movements(q, base, own(s), s);
        lemma_masks_inside(cur, q.enemy_occupancy);
        lemma_masks_inside(cur, q.non_occupancy);
        lemma_target_moves_land(q, piece, s as u8, cur & q.enemy_occupancy, true);
        lemma_target_moves_land(q, piece, s as u8, cur & q.non_occupancy, false);
        lemma_concat_land(q, target_moves(piece, s as u8, cur & q.enemy_occupancy, true), target_moves(piece, s as u8, cur & q.non_occupancy, false));
        lemma_pieces_moves_land(q, piece, clear_lsb(b), base, own);
        lemma_concat_land(q, square_moves(q, piece, s, cur), pieces_moves(q, piece, clear_lsb(b), base, own));
    }
}

/// The moves of pawns to the squares of `squares` land on those squares.
proof fn lemma_pawn_moves_targets(q: Position, squares: u64, offset: int, is_capture: bool)
    ensures
        forall|i: int|
            0 <= i < pawn_moves(q, squares, offset, is_capture).len() ==> {
                let k = #[trigger] pawn_moves(q, squares, offset, is_capture)[i];
                &&& k.0 == PieceType::PAWN
                &&& k.4 == is_capture
                &&& (k.2 as u64) < 64
                &&& bit(squares, k.2 as u64)
            },
    decreases squares,
{
    if squares != 0 {
        lemma_clear_lsb_smaller(squares);
        crate::bitboard::lemma_lsb(squares);
        let t = lsb_index(squares);
        lemma_pawn_moves_targets(q, clear_lsb(squares), offset, is_capture);
        let head = if pawn_move_allowed(q, t, offset) {
            pawn_target_moves(t, offset, is_capture)
        } else {
            Seq::empty()
        };
        let rest = pawn_moves(q, clear_lsb(squares), offset, is_capture);
        assert(pawn_moves(q, squares, offset, is_capture) == head + rest);
        assert((t as u8) as u64 == t);
        assert forall|i: int| 0 <= i < (head + rest).len() implies {
            let k = #[trigger] (head + rest)[i];
            &&& k.0 == PieceType::PAWN
            &&& k.4 == is_capture
            &&& (k.2 as u64) < 64
            &&& bit(squares, k.2 as u64)
        } by {
            if i >= head.len() {
                assert((head + rest)[i] == rest[i - head.len()]);
                let u = rest[i - head.len()].2 as u64;
                assert(bit(clear_lsb(squares), u));
            }
        }
    }
}

/// Pawn moves to the squares of `squares`, a subset of `allowed`, land rightly.
proof fn lemma_pawn_moves_land(q: Position, squares: u64, offset: int, is_capture: bool, allowed: u64)
    requires
        squares & !allowed == 0,
        is_capture ==> allowed == q.enemy_occupancy | q.en_passant_sq,
        !is_capture ==> allowed == q.non_occupancy,
    ensures
        all_land_rightly(q, pawn_moves(q, squares, offset, is_capture)),
{
    lemma_pawn_moves_targets(q, squares, offset, is_capture);
    let pm = pawn_moves(q, squares, offset, is_capture);
    assert forall|i: int| 0 <= i < pm.len() implies lands_rightly(q, #[trigger] pm[i]) by {
        let t = pm[i].2 as u64;
        lemma_bit_ops(squares, !allowed, t);
        lemma_bit_ops(allowed, allowed, t);
        lemma_bit_ops(q.enemy_occupancy, q.en_passant_sq, t);
        lemma_bit_zero(t);
    }
}

proof fn lemma_pawn_sets_inside(l: u64, r: u64, occ: u64, ep: u64, sh: u64, n: u64, c: u64, sh2: u64)
    by (bit_vector)
    ensures
        (l & ((l | r) & (occ | ep))) & !(occ | ep) == 0,
        (r & ((l | r) & (occ | ep))) & !(occ | ep) == 0,
        ((sh & n) & c) & !n == 0,
        (((sh2 & (((sh & n) & c) << 8u64)) & n) & c) & !n == 0,
        (((sh2 & (((sh & n) & c) >> 8u64)) & n) & c) & !n == 0,
{
}

/// Every generated move lands rightly: a capture on an enemy piece (a pawn's also on the en passant
/// square), any other move on an empty square; so no move lands on a piece of the side to move.
pub proof fn lemma_moves_land_rightly(p: Position)
    requires
        p.occupancy_consistent(),
    ensures
        all_land_rightly(prepared(p), generated_moves(p)),
{
    let q = prepared(p);
    let sp = side_pieces(q, mover(q));
    let s = lsb_index(sp.2);
    let e = enemy_attacks(p);
    let v = king_valid_squares(q, s, e);
    let cap = king_captures(q, s, e);
    let quiet = king_non_captures(q, s, e) | king_castling_squares(q, s, e);
    let base = king_non_captures(q, s, e) | (q.castling_rights & bool_mask(s == 4 || s == 60) & bool_mask(
        !q.king_in_check,
    ) & !e & q.non_occupancy);
    lemma_king_quiet_empty(v, q.non_occupancy, q.castling_rights, bool_mask(s == 4 || s == 60), bool_mask(!q.king_in_check), e, base, quiet);
    lemma_masks_inside(v, q.enemy_occupancy);
    lemma_target_moves_land(q, PieceType::KING, s as u8, cap, true);
    lemma_target_moves_land(q, PieceType::KING, s as u8, quiet, false);
    lemma_concat_land(q, target_moves(PieceType::KING, s as u8, cap, true), target_moves(PieceType::KING, s as u8, quiet, false));
    let km = king_moves(q, s, e);
    if q.king_in_double_check {
        assert(generated_moves(p) =~= km);
    } else {
        let sets = pawn_move_sets(q);
        let offs = pawn_offsets(q);
        let opp = if q.white_to_move { q.black_occupancy } else { q.white_occupancy };
        assert(opp == q.enemy_occupancy);
        if q.white_to_move {
            let l = crate::pieces::pawn::pawn_left_attacks(q, crate::constants::PlayerColour::WHITE) & q.check_ray_mask;
            let r = crate::pieces::pawn::pawn_right_attacks(q, crate::constants::PlayerColour::WHITE) & q.check_ray_mask;
            lemma_pawn_sets_inside(l, r, q.black_occupancy, q.en_passant_sq, q.wp << 8u64, q.non_occupancy, q.check_ray_mask, (q.wp & crate::constants::RANK_2) << 16u64);
        } else {
            let l = crate::pieces::pawn::pawn_left_attacks(q, crate::constants::PlayerColour::BLACK) & q.check_ray_mask;
            let r = crate::pieces::pawn::pawn_right_attacks(q, crate::constants::PlayerColour::BLACK) & q.check_ray_mask;
            lemma_pawn_sets_inside(l, r, q.white_occupancy, q.en_passant_sq, q.bp >> 8u64, q.non_occupancy, q.check_ray_mask, (q.bp & crate::constants::RANK_7) >> 16u64);
        }
        lemma_pawn_moves_land(q, sets.0, offs.0, true, q.enemy_occupancy | q.en_passant_sq);
        lemma_pawn_moves_land(q, sets.1, offs.1, true, q.enemy_occupancy | q.en_passant_sq);
        lemma_pawn_moves_land(q, sets.2, offs.2, false, q.non_occupancy);
        lemma_pawn_moves_land(q, sets.3, offs.3, false, q.non_occupancy);
        let l0 = pawn_moves(q, sets.0, offs.0, true);
        let l1 = pawn_moves(q, sets.1, offs.1, true);
        let l2 = pawn_moves(q, sets.2, offs.2, false);
        let l3 = pawn_moves(q, sets.3, offs.3, false);
        lemma_concat_land(q, l0, l1);
        lemma_concat_land(q, l0 + l1, l2);
        lemma_concat_land(q, l0 + l1 + l2, l3);
        let pm = pawn_movement_moves(q);
        assert(pm == l0 + l1 + l2 + l3);
        let b1 = crate::pieces::knight::knight_attacks_of(sp.1) & !q.friendly_occupancy;
        let b3 = crate::pieces::rook::rook_attacks_of(q, sp.3, 0) & !q.friendly_occupancy;
        let b4 = crate::pieces::bishop::bishop_attacks_of(q, sp.4, 0) & !q.friendly_occupancy;
        let b5 = crate::pieces::queen::queen_attacks_of(q, sp.5, 0) & !q.friendly_occupancy;
        let n1 = pieces_moves(q, PieceType::KNIGHT, sp.1, b1, crate::pieces::knight::knight_own());
        let n3 = pieces_moves(q, PieceType::ROOK, sp.3, b3, crate::pieces::rook::rook_own(q, 0));
        let n4 = pieces_moves(q, PieceType::BISHOP, sp.4, b4, crate::pieces::bishop::bishop_own(q, 0));
        let n5 = pieces_moves(q, PieceType::QUEEN, sp.5, b5, crate::pieces::queen::queen_own(q, 0));
        lemma_pieces_moves_land(q, PieceType::KNIGHT, sp.1, b1, crate::pieces::knight::knight_own());
        lemma_pieces_moves_land(q, PieceType::ROOK, sp.3, b3, crate::pieces::rook::rook_own(q, 0));
        lemma_pieces_moves_land(q, PieceType::BISHOP, sp.4, b4, crate::pieces::bishop::bishop_own(q, 0));
        lemma_pieces_moves_land(q, PieceType::QUEEN, sp.5, b5, crate::pieces::queen::queen_own(q, 0));
        lemma_concat_land(q, pm, n1);
        lemma_concat_land(q, pm + n1, n3);
        lemma_concat_land(q, pm + n1 + n3, n4);
        lemma_concat_land(q, pm + n1 + n3 + n4, n5);
        lemma_concat_land(q, km, pm + n1 + n3 + n4 + n5);
        assert(generated_moves(p) =~= km + (pm + n1 + n3 + n4 + n5));
    }
}

proof fn lemma_king_quiet_empty(v: u64, n: u64, r: u64, kb: u64, cb: u64, e: u64, base: u64, quiet: u64)
    by (bit_vector)
    requires
        base == (v & n) | (r & kb & cb & !e & n),
        quiet == (v & n) | (((base & (base << 1u64) & 0x4040404040404040u64) | (base & (base >> 1u64) & (n
            << 1u64) & 0x0404040404040404u64)) & r),
    ensures
        quiet & !n == 0,
{
}


/// The board of the side to move that holds pieces of kind `piece`.
pub open spec fn own_board(q: Position, piece: PieceType) -> u64 {
    let sp = side_pieces(q, mover(q));
    match piece {
        PieceType::PAWN => sp.0,
        PieceType::KNIGHT => sp.1,
        PieceType::KING => sp.2,
        PieceType::ROOK => sp.3,
        PieceType::BISHOP => sp.4,
        PieceType::QUEEN => sp.5,
        PieceType::NONE => 0,
    }
}

/// The moves of the pieces on `b` all come from set squares of `b`.
proof fn lemma_pieces_moves_sources(p: Position, piece: PieceType, b: u64, base: u64, own: spec_fn(u64) -> u64)
    ensures
        forall|i: int| 0 <= i < pieces_moves(p, piece, b, base, own).len() ==> {
            let k = #[trigger] pieces_moves(p, piece, b, base, own)[i];
            &&& (k.1 as u64) < 64
            &&& bit(b, k.1 as u64)
        },
    decreases b,
{
    if b != 0 {
        lemma_clear_lsb_smaller(b);
        crate::bitboard::lemma_lsb(b);
        let s = lsb_index(b);
        let cur = square_movements(p, base, own(s), s);
        lemma_target_moves_elems(piece, s as u8, cur & p.enemy_occupancy, true);
        lemma_target_moves_elems(piece, s as u8, cur & p.non_occupancy, false);
        lemma_pieces_moves_sources(p, piece, clear_lsb(b), base, own);
        let head = square_moves(p, piece, s, cur);
        let rest = pieces_moves(p, piece, clear_lsb(b), base, own);
        assert(pieces_moves(p, piece, b, base, own) == head + rest);
        assert((s as u8) as u64 == s);
        assert forall|i: int| 0 <= i < (head + rest).len() implies {
            let k = #[trigger] (head + rest)[i];
            &&& (k.1 as u64) < 64
            &&& bit(b, k.1 as u64)
        } by {
            let a = target_moves(piece, s as u8, cur & p.enemy_occupancy, true);
            if i < a.len() {
                assert((head + rest)[i] == a[i]);
            } else if i < head.len() {
                assert((head + rest)[i] == target_moves(piece, s as u8, cur & p.non_occupancy, false)[i - a.len()]);
            } else {
                assert((head + rest)[i] == rest[i - head.len()]);
                let u = rest[i - head.len()].1 as u64;
                assert(bit(clear_lsb(b), u));
            }
        }
    }
}

/// The moves of pawns to the squares of `squares` come from `offset` away from their target.
proof fn lemma_pawn_moves_sources(q: Position, squares: u64, offset: int, is_capture: bool)
    requires
        sources_on_board(squares, offset),
    ensures
        forall|i: int|
            0 <= i < pawn_moves(q, squares, offset, is_capture).len() ==> {
                let k = #[trigger] pawn_moves(q, squares, offset, is_capture)[i];
                &&& (k.2 as u64) < 64
                &&& bit(squares, k.2 as u64)
                &&& k.1 as int == k.2 + offset
            },
    decreases squares,
{
    if squares != 0 {
        lemma_clear_lsb_smaller(squares);
        crate::bitboard::lemma_lsb(squares);
        let t = lsb_index(squares);
        let r2 = clear_lsb(squares);
        assert forall|u: u64| u < 64 && bit(r2, u) implies 0 <= u + offset < 64 by {
            assert(bit(squares, u));
        }
        lemma_pawn_moves_sources(q, r2, offset, is_capture);
        let head = if pawn_move_allowed(q, t, offset) {
            pawn_target_moves(t, offset, is_capture)
        } else {
            Seq::empty()
        };
        let rest = pawn_moves(q, r2, offset, is_capture);
        assert(pawn_moves(q, squares, offset, is_capture) == head + rest);
        assert((t as u8) as u64 == t);
        assert(0 <= t + offset < 64);
        assert(((t + offset) as u8) as int == t + offset);
        assert forall|i: int| 0 <= i < (head + rest).len() implies {
            let k = #[trigger] (head + rest)[i];
            &&& (k.2 as u64) < 64
            &&& bit(squares, k.2 as u64)
            &&& k.1 as int == k.2 + offset
        } by {
            if i >= head.len() {
                assert((head + rest)[i] == rest[i - head.len()]);
                let u = rest[i - head.len()].2 as u64;
                assert(bit(r2, u));
            }
        }
    }
}

proof fn lemma_shift_source(x: u64, m: u64, k: u64, t: u64)
    by (bit_vector)
    requires
        k < 64,
        t < 64,
    ensures
        ((((x << k) & m) >> t) & 1u64 == 1u64) ==> t >= k && ((x >> ((t - k) as u64)) & 1u64 == 1u64),
        ((((x >> k) & m) >> t) & 1u64 == 1u64) ==> t + k < 64 && ((x >> ((t + k) as u64)) & 1u64 == 1u64),
{
}

/// Pawn moves to the squares of `squares`, within `(pawns shifted by k) & m`, come from pawns of
/// `pawns`, a part of `all`.
proof fn lemma_pawn_moves_from_pawns(q: Position, squares: u64, pawns: u64, all: u64, k: u64, m: u64, down: bool, is_capture: bool, off: int)
    requires
        k < 64,
        off == (if down { k as int } else { -(k as int) }),
        squares & !((if down { pawns >> k } else { pawns << k }) & m) == 0,
        pawns & !all == 0,
    ensures
        sources_on_board(squares, off),
        forall|i: int|
            0 <= i < pawn_moves(q, squares, off, is_capture).len() ==> {
                let mv = #[trigger] pawn_moves(q, squares, off, is_capture)[i];
                &&& (mv.1 as u64) < 64
                &&& bit(all, mv.1 as u64)
            },
{
    let sh = if down { pawns >> k } else { pawns << k };
    assert forall|t: u64| t < 64 && bit(squares, t) implies 0 <= t + off < 64 && bit(pawns, (t + off) as u64) by {
        lemma_bit_ops(squares, !(sh & m), t);
        lemma_bit_ops(sh & m, sh & m, t);
        lemma_bit_zero(t);
        lemma_shift_source(pawns, m, k, t);
    }
    lemma_pawn_moves_sources(q, squares, off, is_capture);
    let pm = pawn_moves(q, squares, off, is_capture);
    assert forall|i: int| 0 <= i < pm.len() implies {
        let mv = #[trigger] pm[i];
        &&& (mv.1 as u64) < 64
        &&& bit(all, mv.1 as u64)
    } by {
        let t = pm[i].2 as u64;
        let src = (t + off) as u64;
        assert(bit(pawns, src));
        assert(pm[i].1 as u64 == src);
        lemma_bit_ops(pawns, !all, src);
        lemma_bit_ops(all, all, src);
        lemma_bit_zero(src);
    }
}

proof fn lemma_pawn_sets_within(pawns: u64, r2: u64, c: u64, n: u64, l: u64, r: u64, oe: u64, up: bool)
    by (bit_vector)
    ensures
        (l & ((l | r) & oe)) & !l == 0,
        (r & ((l | r) & oe)) & !r == 0,
        up ==> (((pawns << 8u64) & n) & c) & !((pawns << 8u64) & (n & c)) == 0,
        up ==> ((((pawns & r2) << 16u64) & ((((pawns << 8u64) & n) & c) << 8u64)) & n & c) & !(((pawns & r2)
            << 16u64) & ((((((pawns << 8u64) & n) & c) << 8u64)) & n & c)) == 0,
        !up ==> (((pawns >> 8u64) & n) & c) & !((pawns >> 8u64) & (n & c)) == 0,
        !up ==> ((((pawns & r2) >> 16u64) & ((((pawns >> 8u64) & n) & c) >> 8u64)) & n & c) & !(((pawns & r2)
            >> 16u64) & ((((((pawns >> 8u64) & n) & c) >> 8u64)) & n & c)) == 0,
        (pawns & l) & !pawns == 0,
        (pawns & r) & !pawns == 0,
        (pawns & r2) & !pawns == 0,
        pawns & !pawns == 0,
{
}


/// A move comes from a square of the board that holds a piece of its kind of the side to move.
pub open spec fn from_own_piece(q: Position, k: MoveKey) -> bool {
    (k.1 as u64) < 64 && bit(own_board(q, k.0), k.1 as u64)
}

/// All moves of a sequence come from pieces of their kind of the side to move.
pub open spec fn all_from_own_pieces(q: Position, ks: Seq<MoveKey>) -> bool {
    forall|i: int| 0 <= i < ks.len() ==> from_own_piece(q, #[trigger] ks[i])
}

proof fn lemma_concat_own(q: Position, x: Seq<MoveKey>, y: Seq<MoveKey>)
    requires
        all_from_own_pieces(q, x),
        all_from_own_pieces(q, y),
    ensures
        all_from_own_pieces(q, x + y),
{
    assert forall|i: int| 0 <= i < (x + y).len() implies from_own_piece(q, #[trigger] (x + y)[i]) by {
        if i < x.len() {
            assert((x + y)[i] == x[i]);
        } else {
            assert((x + y)[i] == y[i - x.len()]);
        }
    }
}

/// The moves of the pieces of kind `piece` of the side to move come from those pieces.
proof fn lemma_pieces_from_own(q: Position, piece: PieceType, base: u64, own: spec_fn(u64) -> u64)
    ensures
        all_from_own_pieces(q, pieces_moves(q, piece, own_board(q, piece), base, own)),
{
    lemma_pieces_moves_piece(q, piece, own_board(q, piece), base, own);
    lemma_pieces_moves_sources(q, piece, own_board(q, piece), base, own);
}

/// The pawn moves of one kind come from pawns of the side to move.
proof fn lemma_pawns_from_own(q: Position, squares: u64, pawns: u64, k: u64, m: u64, down: bool, is_capture: bool, off: int)
    requires
        k < 64,
        off == (if down { k as int } else { -(k as int) }),
        squares & !((if down { pawns >> k } else { pawns << k }) & m) == 0,
        pawns & !own_board(q, PieceType::PAWN) == 0,
    ensures
        all_from_own_pieces(q, pawn_moves(q, squares, off, is_capture)),
{
    lemma_pawn_moves_from_pawns(q, squares, pawns, own_board(q, PieceType::PAWN), k, m, down, is_capture, off);
    lemma_pawn_moves_targets(q, squares, off, is_capture);
}

/// Every generated move comes from a square holding a piece of its kind of the side to move:
/// pawn moves from pawns, knight moves from knights, and so on.
pub proof fn lemma_moves_come_from_own_pieces(p: Position)
    requires
        analysable(p),
    ensures
        all_from_own_pieces(prepared(p), generated_moves(p)),
{
    let q = prepared(p);
    let sp = side_pieces(q, mover(q));
    let s = lsb_index(sp.2);
    let e = enemy_attacks(p);
    crate::bitboard::lemma_lsb(sp.2);
    assert((s as u8) as u64 == s);
    let cap = king_captures(q, s, e);
    let quiet = king_non_captures(q, s, e) | king_castling_squares(q, s, e);
    lemma_target_moves_elems(PieceType::KING, s as u8, cap, true);
    lemma_target_moves_elems(PieceType::KING, s as u8, quiet, false);
    let a = target_moves(PieceType::KING, s as u8, cap, true);
    let b = target_moves(PieceType::KING, s as u8, quiet, false);
    assert(all_from_own_pieces(q, a));
    assert(all_from_own_pieces(q, b));
    lemma_concat_own(q, a, b);
    let km = king_moves(q, s, e);
    assert(km == a + b);
    if q.king_in_double_check {
        assert(generated_moves(p) =~= km);
    } else {
        let sets = pawn_move_sets(q);
        let offs = pawn_offsets(q);
        let wp = own_board(q, PieceType::PAWN);
        if q.white_to_move {
            let fa = !crate::constants::A_FILE;
            let fb = !crate::constants::H_FILE;
            let c = q.check_ray_mask;
            let n = q.non_occupancy;
            let one = ((wp << 8u64) & n) & c;
            assert(wp == q.wp);
            let l = ((wp & fa) << 7u64) & c;
            let r = ((wp & fb) << 9u64) & c;
            lemma_pawn_sets_within(wp, crate::constants::RANK_2, c, n, l, r, q.black_occupancy | q.en_passant_sq, true);
            lemma_pawn_sets_within(wp, crate::constants::RANK_2, c, n, fa, fb, 0, true);
            assert(sets.0 == l & ((l | r) & (q.black_occupancy | q.en_passant_sq)));
            assert(sets.1 == r & ((l | r) & (q.black_occupancy | q.en_passant_sq)));
            assert(sets.0 & !l == 0);
            assert(sets.1 & !r == 0);
            lemma_pawns_from_own(q, sets.0, wp & fa, 7, c, false, true, -7);
            lemma_pawns_from_own(q, sets.1, wp & fb, 9, c, false, true, -9);
            lemma_pawns_from_own(q, sets.2, wp, 8, n & c, false, false, -8);
            lemma_pawns_from_own(q, sets.3, wp & crate::constants::RANK_2, 16, ((one << 8u64) & n) & c, false, false, -16);
        } else {
            let fa = !crate::constants::H_FILE;
            let fb = !crate::constants::A_FILE;
            let c = q.check_ray_mask;
            let n = q.non_occupancy;
            let one = ((wp >> 8u64) & n) & c;
            assert(wp == q.bp);
            let l = ((wp & fa) >> 7u64) & c;
            let r = ((wp & fb) >> 9u64) & c;
            lemma_pawn_sets_within(wp, crate::constants::RANK_7, c, n, l, r, q.white_occupancy | q.en_passant_sq, false);
            lemma_pawn_sets_within(wp, crate::constants::RANK_7, c, n, fa, fb, 0, false);
            assert(sets.0 == l & ((l | r) & (q.white_occupancy | q.en_passant_sq)));
            assert(sets.1 == r & ((l | r) & (q.white_occupancy | q.en_passant_sq)));
            assert(sets.0 & !l == 0);
            assert(sets.1 & !r == 0);
            lemma_pawns_from_own(q, sets.0, wp & fa, 7, c, true, true, 7);
            lemma_pawns_from_own(q, sets.1, wp & fb, 9, c, true, true, 9);
            lemma_pawns_from_own(q, sets.2, wp, 8, n & c, true, false, 8);
            lemma_pawns_from_own(q, sets.3, wp & crate::constants::RANK_7, 16, ((one >> 8u64) & n) & c, true, false, 16);
        }
        let l0 = pawn_moves(q, sets.0, offs.0, true);
        let l1 = pawn_moves(q, sets.1, offs.1, true);
        let l2 = pawn_moves(q, sets.2, offs.2, false);
        let l3 = pawn_moves(q, sets.3, offs.3, false);
        lemma_concat_own(q, l0, l1);
        lemma_concat_own(q, l0 + l1, l2);
        lemma_concat_own(q, l0 + l1 + l2, l3);
        let pm = pawn_movement_moves(q);
        assert(pm == l0 + l1 + l2 + l3);
        let b1 = crate::pieces::knight::knight_attacks_of(sp.1) & !q.friendly_occupancy;
        let b3 = crate::pieces::rook::rook_attacks_of(q, sp.3, 0) & !q.friendly_occupancy;
        let b4 = crate::pieces::bishop::bishop_attacks_of(q, sp.4, 0) & !q.friendly_occupancy;
        let b5 = crate::pieces::queen::queen_attacks_of(q, sp.5, 0) & !q.friendly_occupancy;
        let n1 = pieces_moves(q, PieceType::KNIGHT, sp.1, b1, crate::pieces::knight::knight_own());
        let n3 = pieces_moves(q, PieceType::ROOK, sp.3, b3, crate::pieces::rook::rook_own(q, 0));
        let n4 = pieces_moves(q, PieceType::BISHOP, sp.4, b4, crate::pieces::bishop::bishop_own(q, 0));
        let n5 = pieces_moves(q, PieceType::QUEEN, sp.5, b5, crate::pieces::queen::queen_own(q, 0));
        lemma_pieces_from_own(q, PieceType::KNIGHT, b1, crate::pieces::knight::knight_own());
        lemma_pieces_from_own(q, PieceType::ROOK, b3, crate::pieces::rook::rook_own(q, 0));
        lemma_pieces_from_own(q, PieceType::BISHOP, b4, crate::pieces::bishop::bishop_own(q, 0));
        lemma_pieces_from_own(q, PieceType::QUEEN, b5, crate::pieces::queen::queen_own(q, 0));
        lemma_concat_own(q, pm, n1);
        lemma_concat_own(q, pm + n1, n3);
        lemma_concat_own(q, pm + n1 + n3, n4);
        lemma_concat_own(q, pm + n1 + n3 + n4, n5);
        lemma_concat_own(q, km, pm + n1 + n3 + n4 + n5);
        assert(generated_moves(p) =~= km + (pm + n1 + n3 + n4 + n5));
    }
}

} // verus!
