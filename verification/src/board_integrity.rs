use vstd::prelude::*;
use crate::bitboard::{bit, sq_bb, popcount, lemma_bit_ops, lemma_bit_or, lemma_bit_single, lemma_bit_zero};
use crate::constants::PieceType;
use crate::game_move::GameMove;
use crate::move_maker::{
    mover_board, captured_board, captured_square_board, castle_rook_board, center_square_board,
    is_en_passant_capture, square_distance, made_position, movement_bb,
};
use crate::position::Position;

verus! {

/// The bitboard of the pieces of kind `kind` of one side (white when `white`).
pub open spec fn board_of(p: Position, white: bool, kind: PieceType) -> u64 {
    match kind {
        PieceType::PAWN => if white { p.wp } else { p.bp },
        PieceType::KNIGHT => if white { p.wn } else { p.bn },
        PieceType::BISHOP => if white { p.wb } else { p.bb },
        PieceType::ROOK => if white { p.wr } else { p.br },
        PieceType::QUEEN => if white { p.wq } else { p.bq },
        PieceType::KING => if white { p.wk } else { p.bk },
        PieceType::NONE => 0,
    }
}

/// One when square `t` is set in `b`, else zero.
pub open spec fn holds(b: u64, t: u64) -> int {
    if bit(b, t) { 1 } else { 0 }
}

/// How many piece bitboards of one side hold square `t`.
pub open spec fn side_count(p: Position, white: bool, t: u64) -> int {
    holds(board_of(p, white, PieceType::PAWN), t) + holds(board_of(p, white, PieceType::KNIGHT), t)
        + holds(board_of(p, white, PieceType::BISHOP), t) + holds(board_of(p, white, PieceType::ROOK), t)
        + holds(board_of(p, white, PieceType::QUEEN), t) + holds(board_of(p, white, PieceType::KING), t)
}

/// No square holds two pieces.
pub open spec fn pieces_disjoint(p: Position) -> bool {
    forall|t: u64| t < 64 ==> #[trigger] side_count(p, true, t) + side_count(p, false, t) <= 1
}

/// The rook corner a castling king move to `g` takes the rook from.
pub open spec fn castle_corner(g: u64) -> u64 {
    if g == 6 { 7 } else if g == 2 { 0 } else if g == 62 { 63 } else { 56 }
}

/// A move that making it handles soundly: a piece of its kind of the side to move stands on the
/// source; the target holds no piece of that side; the enemy king is not taken; an en passant
/// target is empty; only pawns promote, and not by en passant; a king moving two squares castles
/// from its home square with its own rook in the corner and the square it passes empty.
pub open spec fn sound_move(p: Position, m: GameMove) -> bool {
    let white = p.white_to_move;
    let s = m.source_square as u64;
    let g = m.target_square as u64;
    &&& s < 64
    &&& g < 64
    &&& s != g
    &&& bit(board_of(p, white, m.piece), s)
    &&& !bit(p.friendly_occupancy, g)
    &&& board_of(p, !white, PieceType::KING) & captured_square_board(p, m) == 0
    &&& is_en_passant_capture(p, m) ==> bit(p.non_occupancy, g)
    &&& m.promotion_piece != PieceType::NONE ==> m.piece == PieceType::PAWN && !is_en_passant_capture(p, m)
    &&& (m.piece == PieceType::KING && square_distance(m) == 2) ==> {
        &&& (if white { s == 4 && (g == 6 || g == 2) } else { s == 60 && (g == 62 || g == 58) })
        &&& bit(board_of(p, white, PieceType::ROOK), castle_corner(g))
        &&& bit(p.non_occupancy, ((s + g) / 2) as u64)
    }
}

/// The move is a king's two-square castling step.
pub open spec fn castles(m: GameMove) -> bool {
    m.piece == PieceType::KING && square_distance(m) == 2
}

/// How many pieces stand on square `t` after the move: none on the source, one on the target
/// (none where a pawn promotes to a pawn or a king), none in the corner a castling rook leaves,
/// one on the square it goes to, only those of the side to move on a captured square, and
/// elsewhere as before.
pub open spec fn occupied_after(p: Position, m: GameMove, t: u64) -> int {
    let s = m.source_square as u64;
    let g = m.target_square as u64;
    if t == s {
        0
    } else if t == g {
        if m.promotion_piece == PieceType::KING || m.promotion_piece == PieceType::PAWN { 0 } else { 1 }
    } else if castles(m) && t == castle_corner(g) {
        0
    } else if castles(m) && t == ((s + g) / 2) as u64 {
        1
    } else if bit(captured_square_board(p, m), t) {
        side_count(p, p.white_to_move, t)
    } else {
        side_count(p, true, t) + side_count(p, false, t)
    }
}

proof fn lemma_move_bits(b: u64, c: u64, g: u64, t: u64)
    by (bit_vector)
    requires
        g < 64,
        t < 64,
    ensures
        c & ((c - 1u64) as u64) == 0u64 ==> (((((if b & c > 0u64 { b ^ c } else { b }) >> t) & 1u64) == 1u64)
            == (((b >> t) & 1u64) == 1u64 && !(((c >> t) & 1u64) == 1u64))),
        ((1u64 << g) >> 8u64) & ((((1u64 << g) >> 8u64) - 1u64) as u64) == 0u64,
        ((1u64 << g) << 8u64) & ((((1u64 << g) << 8u64) - 1u64) as u64) == 0u64,
        (1u64 << g) & (((1u64 << g) - 1u64) as u64) == 0u64,
        !((((1u64 << g) >> 8u64) >> g) & 1u64 == 1u64),
        !((((1u64 << g) << 8u64) >> g) & 1u64 == 1u64),
        (((1u64 << 6u64) << 1u64) | ((1u64 << 6u64) >> 2u64)) & 0x8100000000000081u64 == 1u64 << 7u64,
        (((1u64 << 2u64) << 1u64) | ((1u64 << 2u64) >> 2u64)) & 0x8100000000000081u64 == 1u64 << 0u64,
        (((1u64 << 62u64) << 1u64) | ((1u64 << 62u64) >> 2u64)) & 0x8100000000000081u64 == 1u64 << 63u64,
        (((1u64 << 58u64) << 1u64) | ((1u64 << 58u64) >> 2u64)) & 0x8100000000000081u64 == 1u64 << 56u64,
{
}

/// Square `t` of a board of the side to move after the move: toggled by the move itself, by
/// the rook of a castling, and by a promotion.
proof fn lemma_mover_bit(b: u64, kind: PieceType, p: Position, m: GameMove, t: u64)
    requires
        t < 64,
        m.source_square < 64,
        m.target_square < 64,
    ensures
        bit(mover_board(b, kind, p, m), t) == (bit(b, t)
            != (m.piece == kind && (t == m.source_square as u64 || t == m.target_square as u64))
            != (kind == PieceType::ROOK && m.piece == PieceType::KING && square_distance(m) == 2
                && bit(castle_rook_board(m, captured_square_board(p, m)), t))
            != (kind == PieceType::PAWN && m.promotion_piece != PieceType::NONE && bit(captured_square_board(p, m), t))
            != (kind != PieceType::PAWN && kind != PieceType::KING && m.promotion_piece == kind
                && bit(captured_square_board(p, m), t))),
{
    let mv = movement_bb(m);
    let cap = captured_square_board(p, m);
    let cr = castle_rook_board(m, cap);
    lemma_bit_or(sq_bb(m.source_square as u64), sq_bb(m.target_square as u64), t);
    lemma_bit_single(m.source_square as u64, t);
    lemma_bit_single(m.target_square as u64, t);
    let b1 = if m.piece == kind { b ^ mv } else { b };
    lemma_bit_ops(b, mv, t);
    let b2 = if kind == PieceType::ROOK && m.piece == PieceType::KING && square_distance(m) == 2 { b1 ^ cr } else { b1 };
    lemma_bit_ops(b1, cr, t);
    let b3 = if kind == PieceType::PAWN && m.promotion_piece != PieceType::NONE { b2 ^ cap } else { b2 };
    lemma_bit_ops(b2, cap, t);
    lemma_bit_ops(b3, cap, t);
}

/// The captured square is one square or none.
pub(crate) proof fn lemma_cap_single(p: Position, m: GameMove)
    requires
        m.target_square < 64,
    ensures
        captured_square_board(p, m) & ((captured_square_board(p, m) - 1u64) as u64) == 0u64,
        !bit(captured_square_board(p, m), m.target_square as u64) ==> is_en_passant_capture(p, m),
        is_en_passant_capture(p, m) ==> !bit(captured_square_board(p, m), m.target_square as u64),
        !is_en_passant_capture(p, m) ==> captured_square_board(p, m) == sq_bb(m.target_square as u64),
{
    let g = m.target_square as u64;
    lemma_move_bits(0, 0, g, 0);
    lemma_bit_single(g, g);
}

/// Square `t` of a board of the side not to move after the move: the captured square is cleared.
pub(crate) proof fn lemma_captured_bit(b: u64, p: Position, m: GameMove, t: u64)
    requires
        t < 64,
        m.target_square < 64,
    ensures
        bit(captured_board(b, p, m), t) == (bit(b, t) && !bit(captured_square_board(p, m), t)),
{
    lemma_cap_single(p, m);
    lemma_move_bits(b, captured_square_board(p, m), m.target_square as u64, t);
}

/// A side's pieces hold square `t` exactly when one of its boards does.
proof fn lemma_side_bit(p: Position, white: bool, t: u64)
    requires
        t < 64,
    ensures
        bit(if white { p.white_pieces() } else { p.black_pieces() }, t) == (side_count(p, white, t) > 0),
        side_count(p, white, t) >= 0,
{
    let b0 = board_of(p, white, PieceType::PAWN);
    let b1 = board_of(p, white, PieceType::KNIGHT);
    let b2 = board_of(p, white, PieceType::BISHOP);
    let b3 = board_of(p, white, PieceType::ROOK);
    let b4 = board_of(p, white, PieceType::QUEEN);
    let b5 = board_of(p, white, PieceType::KING);
    lemma_bit_or(b0, b1, t);
    lemma_bit_or(b0 | b1, b2, t);
    lemma_bit_or(b0 | b1 | b2, b3, t);
    lemma_bit_or(b0 | b1 | b2 | b3, b4, t);
    lemma_bit_or(b0 | b1 | b2 | b3 | b4, b5, t);
}

/// The rook squares of a castling: the square the king passes and the corner.
proof fn lemma_castle_squares(p: Position, m: GameMove, t: u64)
    requires
        t < 64,
        m.piece == PieceType::KING,
        (m.source_square == 4 && (m.target_square == 6 || m.target_square == 2)) || (m.source_square == 60 && (
        m.target_square == 62 || m.target_square == 58)),
    ensures
        bit(castle_rook_board(m, captured_square_board(p, m)), t) == (t == ((m.source_square + m.target_square) / 2) as u64
            || t == castle_corner(m.target_square as u64)),
{
    let g = m.target_square as u64;
    let c = ((m.source_square + m.target_square) / 2) as u64;
    lemma_move_bits(0, 0, g, 0);
    assert(captured_square_board(p, m) == sq_bb(g));
    assert(center_square_board(m) == sq_bb(c));
    assert(castle_rook_board(m, sq_bb(g)) == sq_bb(c) | sq_bb(castle_corner(g)));
    lemma_bit_or(sq_bb(c), sq_bb(castle_corner(g)), t);
    lemma_bit_single(c, t);
    lemma_bit_single(castle_corner(g), t);
}

/// After a sound move no square holds two pieces.
proof fn lemma_square_after_move(p: Position, m: GameMove, masks: [u64; 64], t: u64)
    requires
        t < 64,
        pieces_disjoint(p),
        p.occupancy_consistent(),
        sound_move(p, m),
    ensures
        side_count(made_position(p, m, masks), true, t) + side_count(made_position(p, m, masks), false, t) <= 1,
        side_count(made_position(p, m, masks), true, t) + side_count(made_position(p, m, masks), false, t)
            == occupied_after(p, m, t),
{
    let q = made_position(p, m, masks);
    let white = p.white_to_move;
    let cap = captured_square_board(p, m);
    assert(side_count(p, true, t) + side_count(p, false, t) <= 1);
    lemma_side_bit(p, true, t);
    lemma_side_bit(p, false, t);
    lemma_side_bit(q, true, t);
    lemma_side_bit(q, false, t);
    lemma_bit_ops(p.white_pieces() | p.black_pieces(), 0, t);
    lemma_bit_or(p.white_pieces(), p.black_pieces(), t);
    lemma_cap_single(p, m);
    lemma_bit_single(m.target_square as u64, t);
    lemma_bit_ops(board_of(p, !white, PieceType::KING), cap, t);
    lemma_bit_zero(t);
    if m.piece == PieceType::KING && square_distance(m) == 2 {
        lemma_castle_squares(p, m, t);
        let c = ((m.source_square + m.target_square) / 2) as u64;
        let r = castle_corner(m.target_square as u64);
        assert(side_count(p, true, r) + side_count(p, false, r) <= 1);
        lemma_side_bit(p, true, r);
        lemma_side_bit(p, false, r);
        lemma_side_bit(p, true, c);
        lemma_side_bit(p, false, c);
        lemma_bit_ops(p.white_pieces() | p.black_pieces(), 0, c);
        lemma_bit_or(p.white_pieces(), p.black_pieces(), c);
    }
    let s = m.source_square as u64;
    assert(side_count(p, true, s) + side_count(p, false, s) <= 1);
    lemma_side_bit(p, true, s);
    lemma_side_bit(p, false, s);
    lemma_mover_bit(board_of(p, white, PieceType::PAWN), PieceType::PAWN, p, m, t);
    lemma_mover_bit(board_of(p, white, PieceType::KNIGHT), PieceType::KNIGHT, p, m, t);
    lemma_mover_bit(board_of(p, white, PieceType::BISHOP), PieceType::BISHOP, p, m, t);
    lemma_mover_bit(board_of(p, white, PieceType::ROOK), PieceType::ROOK, p, m, t);
    lemma_mover_bit(board_of(p, white, PieceType::QUEEN), PieceType::QUEEN, p, m, t);
    lemma_mover_bit(board_of(p, white, PieceType::KING), PieceType::KING, p, m, t);
    lemma_captured_bit(board_of(p, !white, PieceType::PAWN), p, m, t);
    lemma_captured_bit(board_of(p, !white, PieceType::KNIGHT), p, m, t);
    lemma_captured_bit(board_of(p, !white, PieceType::BISHOP), p, m, t);
    lemma_captured_bit(board_of(p, !white, PieceType::ROOK), p, m, t);
    lemma_captured_bit(board_of(p, !white, PieceType::QUEEN), p, m, t);
    assert(board_of(q, white, PieceType::PAWN) == mover_board(board_of(p, white, PieceType::PAWN), PieceType::PAWN, p, m));
    assert(board_of(q, white, PieceType::KNIGHT) == mover_board(board_of(p, white, PieceType::KNIGHT), PieceType::KNIGHT, p, m));
    assert(board_of(q, white, PieceType::BISHOP) == mover_board(board_of(p, white, PieceType::BISHOP), PieceType::BISHOP, p, m));
    assert(board_of(q, white, PieceType::ROOK) == mover_board(board_of(p, white, PieceType::ROOK), PieceType::ROOK, p, m));
    assert(board_of(q, white, PieceType::QUEEN) == mover_board(board_of(p, white, PieceType::QUEEN), PieceType::QUEEN, p, m));
    assert(board_of(q, white, PieceType::KING) == mover_board(board_of(p, white, PieceType::KING), PieceType::KING, p, m));
    assert(board_of(q, !white, PieceType::PAWN) == captured_board(board_of(p, !white, PieceType::PAWN), p, m));
    assert(board_of(q, !white, PieceType::KNIGHT) == captured_board(board_of(p, !white, PieceType::KNIGHT), p, m));
    assert(board_of(q, !white, PieceType::BISHOP) == captured_board(board_of(p, !white, PieceType::BISHOP), p, m));
    assert(board_of(q, !white, PieceType::ROOK) == captured_board(board_of(p, !white, PieceType::ROOK), p, m));
    assert(board_of(q, !white, PieceType::QUEEN) == captured_board(board_of(p, !white, PieceType::QUEEN), p, m));
    assert(board_of(q, !white, PieceType::KING) == board_of(p, !white, PieceType::KING));
    let g = m.target_square as u64;
    let mc = side_count(q, white, t);
    let ec = side_count(q, !white, t);
    assert(ec <= side_count(p, !white, t));
    if t == s {
        assert(holds(board_of(p, white, m.piece), t) == 1);
        assert(side_count(p, white, t) >= 1);
        assert(mc == 0);
    } else if t == g {
        assert(side_count(p, white, t) == 0);
        assert(mc <= 1);
        if m.promotion_piece != PieceType::NONE {
            assert(bit(cap, t));
            assert(!bit(mover_board(board_of(p, white, PieceType::PAWN), PieceType::PAWN, p, m), t));
            assert(!bit(mover_board(board_of(p, white, PieceType::KING), PieceType::KING, p, m), t));
        } else {
            lemma_bit_zero(m.source_square as u64);
            assert(m.piece != PieceType::NONE);
            if m.piece == PieceType::PAWN {
                assert(mc == 1);
            } else if m.piece == PieceType::KNIGHT {
                assert(mc == 1);
            } else if m.piece == PieceType::BISHOP {
                assert(mc == 1);
            } else if m.piece == PieceType::ROOK {
                assert(mc == 1);
            } else if m.piece == PieceType::QUEEN {
                assert(mc == 1);
            } else {
                assert(mc == 1);
            }
        }
        assert(mc == occupied_after(p, m, t));
        if is_en_passant_capture(p, m) {
            assert(side_count(p, !white, t) == 0);
        } else {
            assert(bit(cap, t));
            assert(ec == 0);
        }
    } else if m.piece == PieceType::KING && square_distance(m) == 2 && bit(castle_rook_board(m, cap), t) {
        if t == castle_corner(g) {
            assert(mc == 0);
        } else {
            assert(side_count(p, white, t) == 0 && side_count(p, !white, t) == 0);
            assert(mc == 1);
        }
    } else {
        assert(mc == side_count(p, white, t));
        if !bit(cap, t) {
            assert(ec == side_count(p, !white, t));
        } else {
            assert(ec == 0);
        }
    }
    assert(mc + ec <= 1);
}

/// A board of one square is the board of its lowest square.
pub(crate) proof fn lemma_popcount_one(b: u64)
    requires
        popcount(b) == 1,
    ensures
        crate::bitboard::lsb_index(b) < 64,
        b == sq_bb(crate::bitboard::lsb_index(b)),
{
    crate::bitboard::lemma_popcount_bound(b);
    crate::bitboard::lemma_lsb(b);
    let c = crate::bitboard::clear_lsb(b);
    assert(crate::bitboard::bits_seq(b) == seq![crate::bitboard::lsb_index(b)].add(crate::bitboard::bits_seq(c)));
    if c != 0 {
        assert(crate::bitboard::bits_seq(c).len() >= 1);
    }
    let k = crate::bitboard::lsb_index(b);
    assert forall|j: u64| j < 64 implies bit(b, j) == bit(sq_bb(k), j) by {
        lemma_bit_single(k, j);
        lemma_bit_zero(j);
    }
    crate::bitboard::lemma_ext(b, sq_bb(k));
}

/// Making a sound move in a position whose squares hold at most one piece each, with one king a
/// side, keeps every square to at most one piece and each side to one king.
pub proof fn lemma_make_move_keeps_pieces_apart(p: Position, m: GameMove, masks: [u64; 64])
    requires
        pieces_disjoint(p),
        p.occupancy_consistent(),
        popcount(p.wk) == 1,
        popcount(p.bk) == 1,
        sound_move(p, m),
    ensures
        pieces_disjoint(made_position(p, m, masks)),
        popcount(made_position(p, m, masks).wk) == 1,
        popcount(made_position(p, m, masks).bk) == 1,
{
    let q = made_position(p, m, masks);
    assert forall|t: u64| t < 64 implies #[trigger] side_count(q, true, t) + side_count(q, false, t) <= 1 by {
        lemma_square_after_move(p, m, masks, t);
    }
    let white = p.white_to_move;
    let k = board_of(p, white, PieceType::KING);
    let s = m.source_square as u64;
    let g = m.target_square as u64;
    assert(board_of(q, white, PieceType::KING) == mover_board(k, PieceType::KING, p, m));
    assert(board_of(q, !white, PieceType::KING) == board_of(p, !white, PieceType::KING));
    if m.piece == PieceType::KING {
        lemma_popcount_one(k);
        let ks = crate::bitboard::lsb_index(k);
        lemma_bit_single(ks, s);
        assert(ks == s);
        let kn = k ^ movement_bb(m);
        assert forall|j: u64| j < 64 implies bit(kn, j) == bit(sq_bb(g), j) by {
            lemma_bit_ops(k, movement_bb(m), j);
            lemma_bit_or(sq_bb(s), sq_bb(g), j);
            lemma_bit_single(s, j);
            lemma_bit_single(g, j);
        }
        crate::bitboard::lemma_ext(kn, sq_bb(g));
        crate::king_attack_ray_analyzer::lemma_popcount_single(g);
        assert(mover_board(k, PieceType::KING, p, m) == kn);
    } else {
        assert(mover_board(k, PieceType::KING, p, m) == k);
    }
}

/// One when the condition holds, else zero.
pub open spec fn one_if(c: bool) -> int {
    if c { 1 } else { 0 }
}

/// The squares whose enemy piece the move takes: the captured square when an enemy piece
/// stands there.
pub open spec fn taken_board(p: Position, m: GameMove) -> u64 {
    p.enemy_occupancy & captured_square_board(p, m)
}

/// What a sound move changes on square `t`: it leaves the source, arrives on the target, moves
/// a castling rook from its corner to the square the king passes, and takes an enemy piece.
pub open spec fn square_change(p: Position, m: GameMove, t: u64) -> int {
    let s = m.source_square as u64;
    let g = m.target_square as u64;
    one_if(t == g) - one_if(t == s) - one_if(castles(m) && t == castle_corner(g)) + one_if(
        castles(m) && t == ((s + g) / 2) as u64,
    ) - one_if(bit(taken_board(p, m), t))
}

/// On each square the occupancy changes as `square_change` says.
pub(crate) proof fn lemma_square_change(p: Position, m: GameMove, masks: [u64; 64], t: u64)
    requires
        t < 64,
        pieces_disjoint(p),
        p.occupancy_consistent(),
        sound_move(p, m),
        m.promotion_piece != PieceType::KING,
        m.promotion_piece != PieceType::PAWN,
    ensures
        holds(made_position(p, m, masks).all_occupancy, t) - holds(p.all_occupancy, t) == square_change(p, m, t),
{
    let q = made_position(p, m, masks);
    let white = p.white_to_move;
    lemma_square_after_move(p, m, masks, t);
    assert(side_count(p, true, t) + side_count(p, false, t) <= 1);
    lemma_side_bit(p, true, t);
    lemma_side_bit(p, false, t);
    lemma_side_bit(q, true, t);
    lemma_side_bit(q, false, t);
    lemma_bit_or(p.white_pieces(), p.black_pieces(), t);
    lemma_bit_or(q.white_pieces(), q.black_pieces(), t);
    lemma_bit_ops(p.enemy_occupancy, captured_square_board(p, m), t);
    lemma_cap_single(p, m);
    lemma_bit_single(m.target_square as u64, t);
    let s = m.source_square as u64;
    let g = m.target_square as u64;
    assert(side_count(p, true, s) + side_count(p, false, s) <= 1);
    lemma_side_bit(p, true, s);
    lemma_side_bit(p, false, s);
    lemma_bit_zero(s);
    assert(holds(board_of(p, white, m.piece), s) == 1 || m.piece == PieceType::NONE);
    if t == g {
        lemma_side_bit(p, white, g);
        if is_en_passant_capture(p, m) {
            lemma_bit_ops(p.white_pieces() | p.black_pieces(), 0, g);
        }
    }
    if castles(m) {
        lemma_castle_squares(p, m, t);
        let c = ((m.source_square + m.target_square) / 2) as u64;
        let r = castle_corner(m.target_square as u64);
        if t == r {
            assert(side_count(p, true, r) + side_count(p, false, r) <= 1);
        }
        if t == c {
            lemma_bit_ops(p.white_pieces() | p.black_pieces(), 0, c);
        }
    }
}

/// The occupancy of the squares below `n` changes by the sum of `square_change` over them.
proof fn lemma_count_change(p: Position, m: GameMove, masks: [u64; 64], n: nat)
    requires
        n <= 64,
        pieces_disjoint(p),
        p.occupancy_consistent(),
        sound_move(p, m),
        m.promotion_piece != PieceType::KING,
        m.promotion_piece != PieceType::PAWN,
    ensures
        ({
            let s = m.source_square as u64;
            let g = m.target_square as u64;
            crate::position_helper::squares_below(made_position(p, m, masks).all_occupancy, n).len()
                - crate::position_helper::squares_below(p.all_occupancy, n).len() == one_if(g < n) - one_if(s < n)
                - one_if(castles(m) && castle_corner(g) < n) + one_if(castles(m) && ((s + g) / 2) < n)
                - crate::position_helper::squares_below(taken_board(p, m), n).len()
        }),
    decreases n,
{
    if n > 0 {
        lemma_count_change(p, m, masks, (n - 1) as nat);
        let t = (n - 1) as u64;
        lemma_square_change(p, m, masks, t);
    }
}

/// A nonzero part of a board of at most one square counts one.
proof fn lemma_single_count(a: u64, c: u64)
    requires
        c & ((c - 1u64) as u64) == 0u64,
        a & c != 0,
    ensures
        popcount(a & c) == 1,
{
    let e = a & c;
    if c == 0 {
        assert forall|j: u64| j < 64 implies bit(e, j) == bit(0u64, j) by {
            lemma_bit_ops(a, c, j);
            lemma_bit_zero(j);
        }
        crate::bitboard::lemma_ext(e, 0);
    }
    crate::bitboard::lemma_lsb(c);
    let k = crate::bitboard::lsb_index(c);
    assert(crate::bitboard::clear_lsb(c) == 0u64);
    assert forall|j: u64| j < 64 && bit(e, j) implies j == k by {
        lemma_bit_ops(a, c, j);
        lemma_bit_zero(j);
        assert(bit(crate::bitboard::clear_lsb(c), j) == (bit(c, j) && j != k));
    }
    if !bit(e, k) {
        assert forall|j: u64| j < 64 implies bit(e, j) == bit(0u64, j) by {
            lemma_bit_zero(j);
        }
        crate::bitboard::lemma_ext(e, 0);
    }
    assert forall|j: u64| j < 64 implies bit(e, j) == bit(sq_bb(k), j) by {
        lemma_bit_single(k, j);
    }
    crate::bitboard::lemma_ext(e, sq_bb(k));
    crate::king_attack_ray_analyzer::lemma_popcount_single(k);
}

/// Making a sound move (one that promotes, if at all, to a knight, bishop, rook or queen) takes
/// one piece off the board when it captures and none otherwise: the number of occupied squares
/// drops by one exactly when an enemy piece stands on the captured square.
pub proof fn lemma_make_move_occupancy_count(p: Position, m: GameMove, masks: [u64; 64])
    requires
        pieces_disjoint(p),
        p.occupancy_consistent(),
        sound_move(p, m),
        m.promotion_piece != PieceType::KING,
        m.promotion_piece != PieceType::PAWN,
    ensures
        popcount(made_position(p, m, masks).all_occupancy) + one_if(taken_board(p, m) != 0)
            == popcount(p.all_occupancy),
        m.is_capture == (taken_board(p, m) != 0) ==> popcount(made_position(p, m, masks).all_occupancy)
            + one_if(m.is_capture) == popcount(p.all_occupancy),
{
    let q = made_position(p, m, masks);
    lemma_count_change(p, m, masks, 64);
    crate::position_helper::lemma_square_names_count(q.all_occupancy);
    crate::position_helper::lemma_square_names_count(p.all_occupancy);
    crate::position_helper::lemma_square_names_count(taken_board(p, m));
    let e = taken_board(p, m);
    if castles(m) {
        lemma_castle_squares(p, m, 0);
    }
    if e != 0 {
        lemma_cap_single(p, m);
        lemma_single_count(p.enemy_occupancy, captured_square_board(p, m));
    } else {
        crate::bitboard::lemma_popcount_bound(e);
    }
}

/// A side's pieces hold square `t` exactly when one of its boards does.
pub(crate) proof fn lemma_side_bit_pub(p: Position, white: bool, t: u64)
    requires
        t < 64,
    ensures
        bit(if white { p.white_pieces() } else { p.black_pieces() }, t) == (side_count(p, white, t) > 0),
        side_count(p, white, t) >= 0,
{
    lemma_side_bit(p, white, t);
}

} // verus!
