use vstd::prelude::*;
use crate::attacks::{line_attack_set, rank_attack_set, line_occupancy, lemma_line_local};
use crate::bitboard::{bit, sq_bb, union_over, lsb_index, lemma_bit_ops, lemma_bit_or, lemma_bit_zero, lemma_bit_single, lemma_union_over_bit, lemma_ext};
use crate::board_integrity::{board_of, holds, pieces_disjoint, sound_move, square_change, castles, taken_board, lemma_square_change, lemma_captured_bit, lemma_cap_single};
use crate::constants::{PieceType, PlayerColour, KING_ATTACKS, RANKS, FILES, DIAGONALS, ANTI_DIAGONALS, A_FILE, H_FILE};
use crate::game_move::GameMove;
use crate::move_maker::{made_position, captured_square_board, is_en_passant_capture, captured_board, square_distance};
use crate::pieces::bishop::{bishop_attacks_of, bishop_own, bishop_square_attacks};
use crate::pieces::knight::{knight_attacks_of, knight_own};
use crate::pieces::pawn::{pawn_left_attacks, pawn_right_attacks};
use crate::pieces::queen::{queen_attacks_of, queen_own, queen_square_attacks};
use crate::pieces::rook::{rook_attacks_of, rook_own, rook_square_attacks};
use crate::position::Position;
use crate::position_analyzer::{attacked_squares_of, side_pieces, opponent, enemy_attacks, own_king, mover, prepared, generated_moves};
use crate::game_move::move_key;
use crate::legality::{lemma_king_never_moves_into_attack, lemma_moves_land_rightly, lands_rightly};
use crate::bitboard::popcount;

verus! {

proof fn lemma_shift_mono(a: u64, b: u64, m: u64)
    by (bit_vector)
    requires
        a & !b == 0u64,
    ensures
        ((a & m) << 7u64) & !((b & m) << 7u64) == 0u64,
        ((a & m) << 9u64) & !((b & m) << 9u64) == 0u64,
        ((a & m) >> 7u64) & !((b & m) >> 7u64) == 0u64,
        ((a & m) >> 9u64) & !((b & m) >> 9u64) == 0u64,
{
}

/// A square of a part is a square of the whole.
proof fn lemma_within(a: u64, b: u64, t: u64)
    requires
        a & !b == 0,
        t < 64,
        bit(a, t),
    ensures
        bit(b, t),
{
    lemma_bit_ops(a, !b, t);
    lemma_bit_ops(b, b, t);
    lemma_bit_zero(t);
}

/// A board whose squares all lie in another is a part of it.
proof fn lemma_part(a: u64, b: u64)
    requires
        forall|j: u64| j < 64 && #[trigger] bit(a, j) ==> bit(b, j),
    ensures
        a & !b == 0,
{
    assert forall|j: u64| j < 64 implies bit(a & !b, j) == bit(0u64, j) by {
        lemma_bit_ops(a, !b, j);
        lemma_bit_ops(b, b, j);
        lemma_bit_zero(j);
        if bit(a, j) {
            assert(bit(b, j));
        }
    }
    lemma_ext(a & !b, 0);
}

/// The seven parts of the attacked squares of a side.
proof fn lemma_attacked_bit(p: Position, player: PlayerColour, k: u64, t: u64)
    requires
        t < 64,
    ensures
        ({
            let s = side_pieces(p, player);
            bit(attacked_squares_of(p, player, k), t) == (bit(pawn_left_attacks(p, player) & p.check_ray_mask, t)
                || bit(pawn_right_attacks(p, player) & p.check_ray_mask, t) || bit(knight_attacks_of(s.1), t)
                || bit(KING_ATTACKS[lsb_index(s.2) as int], t) || bit(rook_attacks_of(p, s.3, k), t)
                || bit(bishop_attacks_of(p, s.4, k), t) || bit(queen_attacks_of(p, s.5, k), t))
        }),
{
    let s = side_pieces(p, player);
    let a = pawn_left_attacks(p, player) & p.check_ray_mask;
    let b = pawn_right_attacks(p, player) & p.check_ray_mask;
    let c = knight_attacks_of(s.1);
    let d = KING_ATTACKS[lsb_index(s.2) as int];
    let e = rook_attacks_of(p, s.3, k);
    let f = bishop_attacks_of(p, s.4, k);
    let g = queen_attacks_of(p, s.5, k);
    lemma_bit_or(a, b, t);
    lemma_bit_or(a | b, c, t);
    lemma_bit_or(a | b | c, d, t);
    lemma_bit_or(a | b | c | d, e, t);
    lemma_bit_or(a | b | c | d | e, f, t);
    lemma_bit_or(a | b | c | d | e | f, g, t);
}

/// Two positions whose pieces, the given kings left out, stand alike everywhere but on `g`
/// have line occupancies that agree everywhere but on `g`.
proof fn lemma_occ_agree(pp: Position, qq: Position, kp: u64, kq: u64, g: u64, l: u64)
    requires
        g < 64,
        forall|j: u64| j < 64 && j != g ==> #[trigger] bit(qq.all_occupancy & !kq, j) == bit(pp.all_occupancy & !kp, j),
    ensures
        forall|j: u64| j < 64 && j != g ==> #[trigger] bit(line_occupancy(qq, l, kq), j) == bit(line_occupancy(pp, l, kp), j),
{
    assert forall|j: u64| j < 64 && j != g implies #[trigger] bit(line_occupancy(qq, l, kq), j) == bit(line_occupancy(pp, l, kp), j) by {
        assert(bit(qq.all_occupancy & !kq, j) == bit(pp.all_occupancy & !kp, j));
        lemma_bit_ops(qq.all_occupancy & l, !kq, j);
        lemma_bit_ops(qq.all_occupancy, l, j);
        lemma_bit_ops(qq.all_occupancy, !kq, j);
        lemma_bit_ops(pp.all_occupancy & l, !kp, j);
        lemma_bit_ops(pp.all_occupancy, l, j);
        lemma_bit_ops(pp.all_occupancy, !kp, j);
    }
}

/// Under the same agreement, a rook, bishop or queen on `x` (not on `g`) attacks `g` in one
/// position exactly when it does in the other.
proof fn lemma_slider_agree(pp: Position, qq: Position, kp: u64, kq: u64, g: u64, x: u64)
    requires
        g < 64,
        x < 64,
        x != g,
        forall|j: u64| j < 64 && j != g ==> #[trigger] bit(qq.all_occupancy & !kq, j) == bit(pp.all_occupancy & !kp, j),
    ensures
        bit(rook_square_attacks(qq, x, kq), g) == bit(rook_square_attacks(pp, x, kp), g),
        bit(bishop_square_attacks(qq, x, kq), g) == bit(bishop_square_attacks(pp, x, kp), g),
        bit(queen_square_attacks(qq, x, kq), g) == bit(queen_square_attacks(pp, x, kp), g),
{
    let r = RANKS[(x >> 3u64) as int];
    let f = FILES[(x & 7u64) as int];
    let d = DIAGONALS[x as int];
    let a = ANTI_DIAGONALS[x as int];
    lemma_occ_agree(pp, qq, kp, kq, g, r);
    lemma_occ_agree(pp, qq, kp, kq, g, f);
    lemma_occ_agree(pp, qq, kp, kq, g, d);
    lemma_occ_agree(pp, qq, kp, kq, g, a);
    lemma_line_local(line_occupancy(qq, r, kq), line_occupancy(pp, r, kp), x, r, g);
    lemma_line_local(line_occupancy(qq, f, kq), line_occupancy(pp, f, kp), x, f, g);
    lemma_line_local(line_occupancy(qq, d, kq), line_occupancy(pp, d, kp), x, d, g);
    lemma_line_local(line_occupancy(qq, a, kq), line_occupancy(pp, a, kp), x, a, g);
    lemma_bit_or(rank_attack_set(line_occupancy(qq, r, kq), x, r), line_attack_set(line_occupancy(qq, f, kq), x, f), g);
    lemma_bit_or(rank_attack_set(line_occupancy(pp, r, kp), x, r), line_attack_set(line_occupancy(pp, f, kp), x, f), g);
    lemma_bit_or(line_attack_set(line_occupancy(qq, d, kq), x, d), line_attack_set(line_occupancy(qq, a, kq), x, a), g);
    lemma_bit_or(line_attack_set(line_occupancy(pp, d, kp), x, d), line_attack_set(line_occupancy(pp, a, kp), x, a), g);
    lemma_bit_or(rook_square_attacks(qq, x, kq), bishop_square_attacks(qq, x, kq), g);
    lemma_bit_or(rook_square_attacks(pp, x, kp), bishop_square_attacks(pp, x, kp), g);
}

/// A board with every bit of the part also set within the mask MAX keeps its bits.
proof fn lemma_max_mask(x: u64, t: u64)
    requires
        t < 64,
    ensures
        bit(x & u64::MAX, t) == bit(x, t),
{
    lemma_bit_ops(x, u64::MAX, t);
    lemma_bit_zero(t);
}

/// The union of attacks of the pieces of `bq` in one position at `g` lies within that of `bp` in
/// another, when every piece of `bq` is one of `bp`, none is on `g`, and each attacks `g` alike.
proof fn lemma_union_transfer(bq: u64, bp: u64, fq: spec_fn(u64) -> u64, fp: spec_fn(u64) -> u64, g: u64)
    requires
        g < 64,
        forall|x: u64| x < 64 && #[trigger] bit(bq, x) ==> bit(bp, x) && x != g && (bit(fq(x), g) ==> bit(fp(x), g)),
        bit(union_over(bq, fq), g),
    ensures
        bit(union_over(bp, fp), g),
{
    lemma_union_over_bit(bq, fq, g);
    lemma_union_over_bit(bp, fp, g);
    let x = choose|x: u64| #[trigger] bit(bq, x) && x < 64 && bit(fq(x), g);
    assert(bit(bp, x) && bit(fp(x), g));
}

/// When the pieces of `player` in `qq` are among those of `pp`, none stands on `g`, the kings
/// are alike, both positions have no check mask, and their pieces (the given kings left out)
/// stand alike everywhere but on `g`, then `player` attacks `g` in `qq` only if it does in `pp`.
proof fn lemma_attack_transfer(pp: Position, qq: Position, player: PlayerColour, kp: u64, kq: u64, g: u64)
    requires
        g < 64,
        pp.check_ray_mask == u64::MAX,
        qq.check_ray_mask == u64::MAX,
        side_pieces(qq, player).2 == side_pieces(pp, player).2,
        forall|j: u64| j < 64 && #[trigger] bit(side_pieces(qq, player).0, j) ==> bit(side_pieces(pp, player).0, j) && j != g,
        forall|j: u64| j < 64 && #[trigger] bit(side_pieces(qq, player).1, j) ==> bit(side_pieces(pp, player).1, j) && j != g,
        forall|j: u64| j < 64 && #[trigger] bit(side_pieces(qq, player).3, j) ==> bit(side_pieces(pp, player).3, j) && j != g,
        forall|j: u64| j < 64 && #[trigger] bit(side_pieces(qq, player).4, j) ==> bit(side_pieces(pp, player).4, j) && j != g,
        forall|j: u64| j < 64 && #[trigger] bit(side_pieces(qq, player).5, j) ==> bit(side_pieces(pp, player).5, j) && j != g,
        forall|j: u64| j < 64 && j != g ==> #[trigger] bit(qq.all_occupancy & !kq, j) == bit(pp.all_occupancy & !kp, j),
        bit(attacked_squares_of(qq, player, kq), g),
    ensures
        bit(attacked_squares_of(pp, player, kp), g),
{
    let sq = side_pieces(qq, player);
    let sp = side_pieces(pp, player);
    lemma_attacked_bit(qq, player, kq, g);
    lemma_attacked_bit(pp, player, kp, g);
    lemma_part(sq.0, sp.0);
    lemma_shift_mono(sq.0, sp.0, !A_FILE);
    lemma_shift_mono(sq.0, sp.0, !H_FILE);
    let lq = pawn_left_attacks(qq, player);
    let lp = pawn_left_attacks(pp, player);
    let rq = pawn_right_attacks(qq, player);
    let rp = pawn_right_attacks(pp, player);
    lemma_max_mask(lq, g);
    lemma_max_mask(lp, g);
    lemma_max_mask(rq, g);
    lemma_max_mask(rp, g);
    if bit(lq, g) {
        lemma_within(lq, lp, g);
    }
    if bit(rq, g) {
        lemma_within(rq, rp, g);
    }
    if bit(knight_attacks_of(sq.1), g) {
        lemma_union_transfer(sq.1, sp.1, knight_own(), knight_own(), g);
    }
    assert forall|x: u64| x < 64 && #[trigger] bit(sq.3, x) implies bit(sp.3, x) && x != g
        && (bit(rook_own(qq, kq)(x), g) ==> bit(rook_own(pp, kp)(x), g)) by {
        lemma_slider_agree(pp, qq, kp, kq, g, x);
    }
    assert forall|x: u64| x < 64 && #[trigger] bit(sq.4, x) implies bit(sp.4, x) && x != g
        && (bit(bishop_own(qq, kq)(x), g) ==> bit(bishop_own(pp, kp)(x), g)) by {
        lemma_slider_agree(pp, qq, kp, kq, g, x);
    }
    assert forall|x: u64| x < 64 && #[trigger] bit(sq.5, x) implies bit(sp.5, x) && x != g
        && (bit(queen_own(qq, kq)(x), g) ==> bit(queen_own(pp, kp)(x), g)) by {
        lemma_slider_agree(pp, qq, kp, kq, g, x);
    }
    lemma_max_mask(union_over(sq.3, rook_own(qq, kq)), g);
    lemma_max_mask(union_over(sp.3, rook_own(pp, kp)), g);
    lemma_max_mask(union_over(sq.5, queen_own(qq, kq)), g);
    lemma_max_mask(union_over(sp.5, queen_own(pp, kp)), g);
    if bit(union_over(sq.3, rook_own(qq, kq)), g) {
        lemma_union_transfer(sq.3, sp.3, rook_own(qq, kq), rook_own(pp, kp), g);
    }
    if bit(union_over(sq.4, bishop_own(qq, kq)), g) {
        lemma_union_transfer(sq.4, sp.4, bishop_own(qq, kq), bishop_own(pp, kp), g);
    }
    if bit(union_over(sq.5, queen_own(qq, kq)), g) {
        lemma_union_transfer(sq.5, sp.5, queen_own(qq, kq), queen_own(pp, kp), g);
    }
}

/// A king step (no castling) to a square the other side does not attack, seen with the king
/// taken off the board, leaves the king unattacked: after the move, with the king on its new
/// square, no piece of the other side attacks that square.
pub proof fn lemma_king_step_keeps_king_safe(p: Position, m: GameMove, masks: [u64; 64])
    requires
        pieces_disjoint(p),
        p.occupancy_consistent(),
        p.check_ray_mask == u64::MAX,
        m.piece == PieceType::KING,
        m.promotion_piece == PieceType::NONE,
        m.source_square < 64,
        m.target_square < 64,
        own_king(p) == sq_bb(m.source_square as u64),
        square_distance(m) != 2,
        !bit(p.friendly_occupancy, m.target_square as u64),
        side_pieces(p, opponent(p)).2 & sq_bb(m.target_square as u64) == 0,
        !bit(enemy_attacks(p), m.target_square as u64),
    ensures
        !bit(
            attacked_squares_of(made_position(p, m, masks), opponent(p), sq_bb(m.target_square as u64)),
            m.target_square as u64,
        ),
{
    let q = made_position(p, m, masks);
    let white = p.white_to_move;
    let s = m.source_square as u64;
    let g = m.target_square as u64;
    let opp = opponent(p);
    let cap = captured_square_board(p, m);
    lemma_cap_single(p, m);
    assert(cap == sq_bb(g));
    lemma_bit_single(s, s);
    lemma_bit_single(g, s);
    assert(side_pieces(p, mover(p)).2 == board_of(p, white, PieceType::KING));
    assert(bit(board_of(p, white, PieceType::KING), s));
    assert(s != g) by {
        crate::board_integrity::lemma_side_bit_pub(p, white, s);
        lemma_bit_or(p.white_pieces(), p.black_pieces(), s);
    }
    assert(sound_move(p, m));
    // the pieces of the other side after the move are among those before, none on `g`
    assert(side_pieces(q, opp).2 == side_pieces(p, opp).2);
    let nw = !white;
    assert forall|k: PieceType, j: u64| j < 64 && k != PieceType::KING && k != PieceType::NONE
        && #[trigger] bit(board_of(q, nw, k), j) implies bit(board_of(p, nw, k), j) && j != g by {
        lemma_captured_bit(board_of(p, nw, k), p, m, j);
        lemma_bit_single(g, j);
        assert(board_of(q, nw, k) == captured_board(board_of(p, nw, k), p, m));
    }
    assert(side_pieces(q, opp).0 == board_of(q, !white, PieceType::PAWN) && side_pieces(p, opp).0 == board_of(p, !white, PieceType::PAWN));
    assert(side_pieces(q, opp).1 == board_of(q, !white, PieceType::KNIGHT) && side_pieces(p, opp).1 == board_of(p, !white, PieceType::KNIGHT));
    assert(side_pieces(q, opp).3 == board_of(q, !white, PieceType::ROOK) && side_pieces(p, opp).3 == board_of(p, !white, PieceType::ROOK));
    assert(side_pieces(q, opp).4 == board_of(q, !white, PieceType::BISHOP) && side_pieces(p, opp).4 == board_of(p, !white, PieceType::BISHOP));
    assert(side_pieces(q, opp).5 == board_of(q, !white, PieceType::QUEEN) && side_pieces(p, opp).5 == board_of(p, !white, PieceType::QUEEN));
    // the board is as before but for the source and the target
    assert forall|j: u64| j < 64 && j != g implies #[trigger] bit(q.all_occupancy & !sq_bb(g), j) == bit(p.all_occupancy & !sq_bb(s), j) by {
        lemma_square_change(p, m, masks, j);
        lemma_bit_ops(q.all_occupancy, !sq_bb(g), j);
        lemma_bit_ops(p.all_occupancy, !sq_bb(s), j);
        lemma_bit_ops(sq_bb(g), sq_bb(g), j);
        lemma_bit_ops(sq_bb(s), sq_bb(s), j);
        lemma_bit_single(g, j);
        lemma_bit_single(s, j);
        lemma_bit_ops(p.enemy_occupancy, cap, j);
        if j == s {
            crate::board_integrity::lemma_side_bit_pub(p, white, s);
            lemma_bit_or(p.white_pieces(), p.black_pieces(), s);
            assert(bit(p.all_occupancy, s));
        }
    }
    if bit(attacked_squares_of(q, opp, sq_bb(g)), g) {
        lemma_attack_transfer(p, q, opp, own_king(p), sq_bb(g), g);
    }
}

/// Every king step the generator produces (castling aside) leaves the king unattacked: after the
/// move is made, no piece of the other side attacks the king's new square. This holds for a
/// position whose squares hold one piece each, with one king a side, no check mask left over
/// from an earlier analysis, and the other king not on the step's target.
pub proof fn lemma_generated_king_steps_are_safe(p: Position, i: int, m: GameMove, masks: [u64; 64])
    requires
        pieces_disjoint(p),
        p.occupancy_consistent(),
        p.check_ray_mask == u64::MAX,
        popcount(own_king(p)) == 1,
        0 <= i < generated_moves(p).len(),
        move_key(m) == generated_moves(p)[i],
        m.piece == PieceType::KING,
        square_distance(m) != 2,
        side_pieces(p, opponent(p)).2 & sq_bb(m.target_square as u64) == 0,
    ensures
        !bit(
            attacked_squares_of(made_position(prepared(p), m, masks), opponent(p), sq_bb(m.target_square as u64)),
            m.target_square as u64,
        ),
{
    let q = prepared(p);
    let g = m.target_square as u64;
    lemma_king_never_moves_into_attack(p);
    lemma_moves_land_rightly(p);
    assert(lands_rightly(q, generated_moves(p)[i]));
    crate::board_integrity::lemma_popcount_one(own_king(p));
    assert(side_pieces(q, mover(q)).2 == own_king(p));
    let s = lsb_index(own_king(p));
    assert(m.source_square as u64 == s);
    // the target holds no piece of the side to move
    assert(!bit(p.friendly_occupancy, g)) by {
        assert(side_pieces(p, opponent(p)).2 & sq_bb(g) == 0);
        crate::board_integrity::lemma_side_bit_pub(p, true, g);
        crate::board_integrity::lemma_side_bit_pub(p, false, g);
        lemma_bit_or(p.white_pieces(), p.black_pieces(), g);
        lemma_bit_ops(p.white_pieces() | p.black_pieces(), 0, g);
        assert(crate::board_integrity::side_count(p, true, g) + crate::board_integrity::side_count(p, false, g) <= 1);
    }
    lemma_king_step_keeps_king_safe(p, m, masks);
    assert(made_position(q, m, masks) == made_position(p, m, masks));
}

} // verus!
