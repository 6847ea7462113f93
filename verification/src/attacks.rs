use vstd::prelude::*;
use crate::bitboard::{
    bit, sq_bb, between_mask, vflip, from_bits, swap_bytes, lemma_bit_ops, lemma_from_bits_unique,
    lemma_ext,
};
use crate::position::Position;
use crate::constants::RANKS;

verus! {

// ---------------------------------------------------------------------------
// Sliding attacks
// ---------------------------------------------------------------------------

/// Scanning upward (to higher indices) from square `s` over blockers `x` (which never hold `s`)
/// reaches `t`: no blocker lies strictly between `s` and `t`. The scan also marks `s` itself
/// when a blocker lies above `s` but the occupancy `o` does not hold `s`.
pub open spec fn up_reach(x: u64, o: u64, s: u64, t: u64) -> bool {
    (t > s && x & between_mask(s, t) == 0) || (t == s && x > sq_bb(s) && !bit(o, s))
}

/// Squares attacked along a line `l` (a file or diagonal) from `s` with occupancy `o` of that
/// line: upward by index, and downward by rank (scanning up on the vertically flipped board).
pub open spec fn line_attack_set(o: u64, s: u64, l: u64) -> u64 {
    from_bits(
        |t: u64|
            bit(l, t) && (up_reach(o & !sq_bb(s), o, s, t) || up_reach(
                vflip(o & !sq_bb(s)),
                vflip(o),
                s ^ 56u64,
                t ^ 56u64,
            )),
    )
}

/// The rank of square `s` as a bitboard.
pub open spec fn rank_mask_of(s: u64) -> u64 {
    0xffu64 << ((s >> 3u64) << 3u64)
}

/// Squares attacked along the rank mask `m` of `s` with occupancy `o`: to the right up to and
/// including the first blocker, and to the left up to and including the first blocker.
pub open spec fn rank_attack_set(o: u64, s: u64, m: u64) -> u64 {
    from_bits(
        |t: u64|
            bit(m, t) && (up_reach(o & !sq_bb(s), o, s, t) || (t < s && (o & !sq_bb(s))
                & between_mask(t, s) == 0)),
    )
}

proof fn lemma_rank_literals(s: u64)
    by (bit_vector)
    requires
        s < 64,
    ensures
        s >> 3u64 < 8,
        s & 7u64 < 8,
        (s >> 3u64) == 0 ==> rank_mask_of(s) == 0xffu64,
        (s >> 3u64) == 1 ==> rank_mask_of(s) == 0xff00u64,
        (s >> 3u64) == 2 ==> rank_mask_of(s) == 0xff0000u64,
        (s >> 3u64) == 3 ==> rank_mask_of(s) == 0xff000000u64,
        (s >> 3u64) == 4 ==> rank_mask_of(s) == 0xff00000000u64,
        (s >> 3u64) == 5 ==> rank_mask_of(s) == 0xff0000000000u64,
        (s >> 3u64) == 6 ==> rank_mask_of(s) == 0xff000000000000u64,
        (s >> 3u64) == 7 ==> rank_mask_of(s) == 0xff00000000000000u64,
{
}

/// The rank table holds the rank of each square.
pub proof fn lemma_rank_table(s: u64)
    requires
        s < 64,
    ensures
        s >> 3u64 < 8,
        s & 7u64 < 8,
        RANKS[(s >> 3u64) as int] == rank_mask_of(s),
{
    lemma_rank_literals(s);
}

/// Pieces on a line that can block a slider: every piece of the line except the enemy king.
pub open spec fn line_occupancy(p: Position, mask: u64, enemy_king_pos: u64) -> u64 {
    p.all_occupancy & mask & !enemy_king_pos
}

proof fn lemma_up_scan(x: u64, o: u64, s: u64, t: u64, f: u64)
    by (bit_vector)
    requires
        s < 64,
        t < 64,
        x == o & !(1u64 << s),
        f == (if x > (1u64 << s) {
            ((x - (1u64 << s)) as u64) ^ o
        } else {
            ((((!(1u64 << s)) + 1u64) as u64) - (1u64 << s)) as u64
        }),
    ensures
        (((f >> t) & 1u64) == 1u64) == ((t > s && x & ((((1u64 << t) - 1u64) as u64) ^ (((2u64
            << s) - 1u64) as u64)) == 0) || (t == s && x > (1u64 << s) && (o >> s) & 1u64
            != 1u64)),
{
}

proof fn lemma_scan_arith(s: u64)
    by (bit_vector)
    requires
        s < 64,
    ensures
        !(1u64 << s) < u64::MAX,
        (((!(1u64 << s)) + 1u64) as u64) >= (1u64 << s),
        (1u64 << s) >= 1,
        s ^ 56u64 < 64,
{
}

pub(crate) proof fn lemma_index_flip(t: u64)
    by (bit_vector)
    requires
        t < 64,
    ensures
        t ^ 56u64 < 64,
        (t ^ 56u64) ^ 56u64 == t,
{
}

/// Flipping a single square gives the flipped square; flipping commutes with removing it.
proof fn lemma_vflip_square(o: u64, s: u64)
    requires
        s < 64,
    ensures
        vflip(sq_bb(s)) == sq_bb(s ^ 56u64),
        vflip(o & !sq_bb(s)) == vflip(o) & !sq_bb(s ^ 56u64),
{
    lemma_index_flip(s);
    let a = vflip(sq_bb(s));
    let b = vflip(o & !sq_bb(s));
    assert forall|i: u64| i < 64 implies bit(a, i) == bit(sq_bb(s ^ 56u64), i) && bit(b, i) == bit(
        vflip(o) & !sq_bb(s ^ 56u64),
        i,
    ) by {
        lemma_index_flip(i);
        crate::bitboard::lemma_from_bits(|j: u64| bit(sq_bb(s), j ^ 56u64), i);
        crate::bitboard::lemma_from_bits(|j: u64| bit(o & !sq_bb(s), j ^ 56u64), i);
        crate::bitboard::lemma_from_bits(|j: u64| bit(o, j ^ 56u64), i);
        crate::bitboard::lemma_bit_single(s, i ^ 56u64);
        crate::bitboard::lemma_bit_single(s ^ 56u64, i);
        lemma_bit_ops(o, !sq_bb(s), i ^ 56u64);
        lemma_bit_ops(sq_bb(s), sq_bb(s), i ^ 56u64);
        lemma_bit_ops(vflip(o), !sq_bb(s ^ 56u64), i);
        lemma_bit_ops(sq_bb(s ^ 56u64), sq_bb(s ^ 56u64), i);
    }
    lemma_ext(a, sq_bb(s ^ 56u64));
    lemma_ext(b, vflip(o) & !sq_bb(s ^ 56u64));
}

/// Squares a slider on `source_square` attacks along a file or diagonal `ray_mask`, scanning
/// both ways to the first blocker (the enemy king does not block, so that it cannot step back
/// along the ray that attacks it).
pub fn calc_file_or_diagonal_attacks(
    position: &Position,
    source_square: usize,
    ray_mask: u64,
    enemy_king_pos: u64,
) -> (r: u64)
    requires
        source_square < 64,
    ensures
        r == line_attack_set(
            line_occupancy(*position, ray_mask, enemy_king_pos),
            source_square as u64,
            ray_mask,
        ),
{
    let ghost s = source_square as u64;
    proof {
        lemma_scan_arith(s);
    }
    let piece_pos: u64 = 1u64 << (source_square as u64);
    let ray_occupancy: u64 = position.all_occupancy & ray_mask & !enemy_king_pos;
    let mut forward: u64 = ray_occupancy & !piece_pos;
    let ghost x = forward;
    let mut reverse: u64 = swap_bytes(forward);
    if forward > piece_pos {
        forward = forward - piece_pos;
        forward = forward ^ ray_occupancy;
    } else {
        forward = (!piece_pos + 1) - piece_pos;
    }
    let piece_pos_rev = swap_bytes(piece_pos);
    proof {
        lemma_vflip_square(ray_occupancy, s);
        lemma_scan_arith(s ^ 56u64);
    }
    let ghost y = reverse;
    let ghost flipped_occ = vflip(ray_occupancy);
    if reverse > piece_pos_rev {
        reverse = reverse - piece_pos_rev;
        reverse = reverse ^ swap_bytes(ray_occupancy);
    } else {
        reverse = (!piece_pos_rev + 1) - piece_pos_rev;
    }
    let ghost g = reverse;
    reverse = swap_bytes(reverse);
    let r = (forward | reverse) & ray_mask;
    proof {
        let p = |t: u64|
            bit(ray_mask, t) && (up_reach(x, ray_occupancy, s, t) || up_reach(
                y,
                flipped_occ,
                s ^ 56u64,
                t ^ 56u64,
            ));
        assert forall|t: u64| t < 64 implies bit(r, t) == p(t) by {
            lemma_index_flip(t);
            assert(bit(reverse, t) == bit(g, t ^ 56u64));
            assert(y == flipped_occ & !(1u64 << (s ^ 56u64)));
            lemma_up_scan(x, ray_occupancy, s, t, forward);
            lemma_up_scan(y, flipped_occ, s ^ 56u64, t ^ 56u64, g);
            lemma_bit_ops(forward | reverse, ray_mask, t);
            lemma_bit_ops(forward, reverse, t);
        }
        lemma_from_bits_unique(p, r);
    }
    r
}

proof fn lemma_rank_scan(
    x: u64,
    o: u64,
    m: u64,
    s: u64,
    t: u64,
    right: u64,
    p1: u64,
    p2: u64,
    p3: u64,
    p4: u64,
    p5: u64,
    p6: u64,
    left: u64,
)
    by (bit_vector)
    requires
        s < 64,
        t < 64,
        m == 0xffu64 << ((s >> 3u64) << 3u64),
        o & !m == 0,
        x == o & !(1u64 << s),
        right == (if x > (1u64 << s) {
            o ^ ((x - (1u64 << s)) as u64)
        } else {
            (((!(1u64 << s)) + 1u64) as u64) & ((m - (1u64 << s)) as u64)
        }),
        p1 == ((1u64 << s) >> 1u64) & !x,
        p2 == (p1 >> 1u64) & !x,
        p3 == (p2 >> 1u64) & !x,
        p4 == (p3 >> 1u64) & !x,
        p5 == (p4 >> 1u64) & !x,
        p6 == (p5 >> 1u64) & !x,
        left == (((1u64 << s) >> 1u64) | (p1 >> 1u64) | (p2 >> 1u64) | (p3 >> 1u64) | (p4
            >> 1u64) | (p5 >> 1u64) | (p6 >> 1u64)) & m,
    ensures
        ((((left | right) >> t) & 1u64) == 1u64) == (((m >> t) & 1u64) == 1u64 && ((t > s && x
            & ((((1u64 << t) - 1u64) as u64) ^ (((2u64 << s) - 1u64) as u64)) == 0) || (t
            == s && x > (1u64 << s) && (o >> s) & 1u64 != 1u64) || (t < s && x & ((((1u64
            << s) - 1u64) as u64) ^ (((2u64 << t) - 1u64) as u64)) == 0))),
{
}

proof fn lemma_rank_mask_facts(s: u64)
    by (bit_vector)
    requires
        s < 64,
    ensures
        (0xffu64 << ((s >> 3u64) << 3u64)) >= (1u64 << s),
{
}

/// Squares a slider on `source_square` attacks along its rank `rank_mask`, scanning both ways
/// to the first blocker (the enemy king does not block).
pub fn calc_rank_attacks(
    position: &Position,
    source_square: usize,
    rank_mask: u64,
    enemy_king_pos: u64,
) -> (r: u64)
    requires
        source_square < 64,
        rank_mask == rank_mask_of(source_square as u64),
    ensures
        r == rank_attack_set(
            line_occupancy(*position, rank_mask, enemy_king_pos),
            source_square as u64,
            rank_mask,
        ),
{
    let ghost s = source_square as u64;
    proof {
        lemma_scan_arith(s);
        lemma_rank_mask_facts(s);
    }
    let mut piece_pos: u64 = 1u64 << (source_square as u64);
    // The enemy king position is taken out so that it does not block the attack ray
    let all_occupancy: u64 = position.all_occupancy;
    let occupancy: u64 = all_occupancy & rank_mask & !enemy_king_pos;
    let blocker: u64 = occupancy & !piece_pos;
    let right_attacks: u64 = if blocker > piece_pos {
        occupancy ^ (blocker - piece_pos)
    } else {
        (!piece_pos + 1) & (rank_mask - piece_pos)
    };
    // For left attacks, shift the slider bit over by one position each time and check if
    // any piece is present
    let non_blocker = !blocker;
    let mut left_attacks: u64 = 0u64;
    piece_pos = piece_pos >> 1;
    left_attacks = left_attacks | piece_pos;
    piece_pos = piece_pos & non_blocker;
    let ghost p1 = piece_pos;
    piece_pos = piece_pos >> 1;
    left_attacks = left_attacks | piece_pos;
    piece_pos = piece_pos & non_blocker;
    let ghost p2 = piece_pos;
    piece_pos = piece_pos >> 1;
    left_attacks = left_attacks | piece_pos;
    piece_pos = piece_pos & non_blocker;
    let ghost p3 = piece_pos;
    piece_pos = piece_pos >> 1;
    left_attacks = left_attacks | piece_pos;
    piece_pos = piece_pos & non_blocker;
    let ghost p4 = piece_pos;
    piece_pos = piece_pos >> 1;
    left_attacks = left_attacks | piece_pos;
    piece_pos = piece_pos & non_blocker;
    let ghost p5 = piece_pos;
    piece_pos = piece_pos >> 1;
    left_attacks = left_attacks | piece_pos;
    piece_pos = piece_pos & non_blocker;
    let ghost p6 = piece_pos;
    left_attacks = left_attacks | (piece_pos >> 1);
    left_attacks = left_attacks & rank_mask;
    let r = left_attacks | right_attacks;
    proof {
        assert(occupancy & !rank_mask == 0) by (bit_vector)
            requires
                occupancy == all_occupancy & rank_mask & !enemy_king_pos,
        ;
        assert(left_attacks == (((1u64 << s) >> 1u64) | (p1 >> 1u64) | (p2 >> 1u64) | (p3
            >> 1u64) | (p4 >> 1u64) | (p5 >> 1u64) | (p6 >> 1u64)) & rank_mask) by (bit_vector)
            requires
                left_attacks == ((((((((0u64 | ((1u64 << s) >> 1u64)) | (p1 >> 1u64)) | (p2
                    >> 1u64)) | (p3 >> 1u64)) | (p4 >> 1u64)) | (p5 >> 1u64)) | (p6 >> 1u64))
                    & rank_mask),
        ;
        let p = |t: u64|
            bit(rank_mask, t) && (up_reach(blocker, occupancy, s, t) || (t < s && blocker
                & between_mask(t, s) == 0));
        assert forall|t: u64| t < 64 implies bit(r, t) == p(t) by {
            lemma_rank_scan(
                blocker,
                occupancy,
                rank_mask,
                s,
                t,
                right_attacks,
                p1,
                p2,
                p3,
                p4,
                p5,
                p6,
                left_attacks,
            );
        }
        lemma_from_bits_unique(p, r);
    }
    r
}

/// From an occupied source square, the rank attacks are the other squares of its rank with no
/// blocker strictly between them and the source: each direction stops on, and includes, the first
/// occupied square.
pub proof fn lemma_rank_attacks_exact(o: u64, s: u64, t: u64)
    requires
        s < 64,
        t < 64,
        bit(o, s),
    ensures
        bit(rank_attack_set(o, s, rank_mask_of(s)), t) == (t != s && bit(rank_mask_of(s), t) && (
        if t > s {
            (o & !sq_bb(s)) & between_mask(s, t) == 0
        } else {
            (o & !sq_bb(s)) & between_mask(t, s) == 0
        })),
{
    crate::bitboard::lemma_from_bits(
        |u: u64|
            bit(rank_mask_of(s), u) && (up_reach(o & !sq_bb(s), o, s, u) || (u < s && (o & !sq_bb(s))
                & between_mask(u, s) == 0)),
        t,
    );
}

proof fn lemma_line_order(a: u64, b: u64, j: u64)
    by (bit_vector)
    requires
        a < 64,
        b < 64,
        j < 64,
    ensures
        a < b ==> (((between_mask(a, b) >> j) & 1u64 == 1u64) == (a < j && j < b)),
        (a >> 3u64) != (b >> 3u64) ==> ((a < b) == ((a ^ 56u64) > (b ^ 56u64))),
        (a ^ 56u64) < 64,
        (a ^ 56u64) ^ 56u64 == a,
{
}

/// A board and a mask share no square exactly when no square is set in both.
proof fn lemma_and_zero(x: u64, m: u64)
    ensures
        (x & m == 0) == (forall|j: u64| j < 64 ==> !(#[trigger] bit(x, j) && bit(m, j))),
{
    if x & m == 0 {
        assert forall|j: u64| j < 64 implies !(#[trigger] bit(x, j) && bit(m, j)) by {
            lemma_bit_ops(x, m, j);
        }
    } else {
        if forall|j: u64| j < 64 ==> !(#[trigger] bit(x, j) && bit(m, j)) {
            assert forall|j: u64| j < 64 implies bit(x & m, j) == bit(0u64, j) by {
                lemma_bit_ops(x, m, j);
                crate::bitboard::lemma_bit_zero(j);
                assert(!(bit(x, j) && bit(m, j)));
            }
            lemma_ext(x & m, 0);
        }
    }
}

/// The squares of `l` together with `s` lie on pairwise different ranks, as on a file, a
/// diagonal or an anti-diagonal through `s`.
pub open spec fn ranks_apart(l: u64, s: u64) -> bool {
    forall|a: u64, b: u64|
        a < 64 && b < 64 && a != b && (bit(l, a) || a == s) && (bit(l, b) || b == s) ==> #[trigger] (a >> 3u64)
            != #[trigger] (b >> 3u64)
}

/// Along a file or diagonal `l` through `s`, with pieces `o` on that line, the attacks from `s`
/// are the other squares of the line with no piece strictly between them and `s`: each direction
/// stops on, and includes, the first piece.
pub proof fn lemma_line_attacks_exact(o: u64, s: u64, l: u64, t: u64)
    requires
        s < 64,
        t < 64,
        t != s,
        o & !l == 0,
        ranks_apart(l, s),
    ensures
        bit(line_attack_set(o, s, l), t) == (bit(l, t) && forall|j: u64|
            j < 64 && j != s && #[trigger] bit(o, j) ==> !((s < j && j < t) || (t < j && j < s))),
{
    let x = o & !sq_bb(s);
    crate::bitboard::lemma_from_bits(
        |u: u64|
            bit(l, u) && (up_reach(o & !sq_bb(s), o, s, u) || up_reach(
                vflip(o & !sq_bb(s)),
                vflip(o),
                s ^ 56u64,
                u ^ 56u64,
            )),
        t,
    );
    lemma_line_order(s, t, 0);
    lemma_line_order(t, s, 0);
    lemma_and_zero(x, between_mask(s, t));
    lemma_and_zero(vflip(x), between_mask(s ^ 56u64, t ^ 56u64));
    // pieces of `x` are the pieces of the line other than `s`
    assert forall|j: u64| j < 64 implies (bit(x, j) == (bit(o, j) && j != s)) && (bit(o, j) ==> bit(l, j)) by {
        lemma_bit_ops(o, !sq_bb(s), j);
        lemma_bit_ops(sq_bb(s), sq_bb(s), j);
        crate::bitboard::lemma_bit_single(s, j);
        lemma_bit_ops(o, !l, j);
        lemma_bit_ops(l, l, j);
        crate::bitboard::lemma_bit_zero(j);
    }
    if bit(l, t) {
        assert(ranks_apart(l, s));
        assert((s >> 3u64) != (t >> 3u64));
        if t > s {
            assert(!((s ^ 56u64) < (t ^ 56u64)));
            assert forall|j: u64| j < 64 && bit(x, j) implies !(#[trigger] bit(between_mask(s, t), j)) <==> !(s < j && j < t) by {
                lemma_line_order(s, t, j);
            }
        } else {
            assert((s ^ 56u64) < (t ^ 56u64));
            assert forall|jj: u64| jj < 64 implies #[trigger] bit(vflip(x), jj) == bit(x, jj ^ 56u64) by {
                crate::bitboard::lemma_from_bits(|i: u64| bit(x, i ^ 56u64), jj);
            }
            if forall|j: u64| j < 64 && j != s && #[trigger] bit(o, j) ==> !((s < j && j < t) || (t < j && j < s)) {
                assert forall|jj: u64| jj < 64 implies !(#[trigger] bit(vflip(x), jj) && bit(between_mask(s ^ 56u64, t ^ 56u64), jj)) by {
                    lemma_line_order(s ^ 56u64, t ^ 56u64, jj);
                    lemma_line_order(jj, s, 0);
                    lemma_line_order(jj, t, 0);
                    let j = jj ^ 56u64;
                    if bit(x, j) && (s ^ 56u64) < jj && jj < (t ^ 56u64) {
                        lemma_line_order(j, s, 0);
                        lemma_line_order(j, t, 0);
                        assert(bit(o, j) && j != s);
                        assert(j != t);
                        assert((j >> 3u64) != (s >> 3u64));
                        assert((j >> 3u64) != (t >> 3u64));
                        assert(t < j && j < s);
                    }
                }
            } else {
                let j = choose|j: u64| j < 64 && j != s && #[trigger] bit(o, j) && ((s < j && j < t) || (t < j && j < s));
                lemma_line_order(j, s, 0);
                lemma_line_order(j, t, 0);
                lemma_line_order(s ^ 56u64, t ^ 56u64, j ^ 56u64);
                assert(bit(x, j));
                assert((j >> 3u64) != (s >> 3u64));
                assert((j >> 3u64) != (t >> 3u64));
                assert(bit(vflip(x), j ^ 56u64));
                assert(bit(between_mask(s ^ 56u64, t ^ 56u64), j ^ 56u64));
            }
        }
    }
}

/// What `calc_file_or_diagonal_attacks` returns, square by square: from an occupied square `s`
/// that is not the enemy king's, along a file or diagonal `l` through `s`, the other squares of the line with no piece of the line, other than the
/// enemy king, strictly between them and `s`.
pub proof fn lemma_file_or_diagonal_attacks_exact(p: Position, s: u64, l: u64, enemy_king_pos: u64, t: u64)
    requires
        s < 64,
        t < 64,
        ranks_apart(l, s),
        bit(p.all_occupancy & !enemy_king_pos, s),
    ensures
        bit(line_attack_set(line_occupancy(p, l, enemy_king_pos), s, l), t) == (t != s && bit(l, t) && forall|j: u64|
            j < 64 && j != s && bit(l, j) && #[trigger] bit(p.all_occupancy & !enemy_king_pos, j) ==> !((s < j
                && j < t) || (t < j && j < s))),
{
    let o = line_occupancy(p, l, enemy_king_pos);
    assert(o & !l == 0) by {
        assert forall|j: u64| j < 64 implies bit(o & !l, j) == bit(0u64, j) by {
            lemma_bit_ops(p.all_occupancy & l, !enemy_king_pos, j);
            lemma_bit_ops(p.all_occupancy, l, j);
            lemma_bit_ops(o, !l, j);
            lemma_bit_ops(l, l, j);
            crate::bitboard::lemma_bit_zero(j);
        }
        lemma_ext(o & !l, 0);
    }
    assert forall|j: u64| j < 64 implies bit(o, j) == (bit(l, j) && bit(p.all_occupancy & !enemy_king_pos, j)) by {
        lemma_bit_ops(p.all_occupancy & l, !enemy_king_pos, j);
        lemma_bit_ops(p.all_occupancy, l, j);
        lemma_bit_ops(p.all_occupancy, !enemy_king_pos, j);
    }
    if t != s {
        lemma_line_attacks_exact(o, s, l, t);
    } else {
        crate::bitboard::lemma_from_bits(
            |u: u64|
                bit(l, u) && (up_reach(o & !sq_bb(s), o, s, u) || up_reach(
                    vflip(o & !sq_bb(s)),
                    vflip(o),
                    s ^ 56u64,
                    u ^ 56u64,
                )),
            t,
        );
        lemma_line_order(s, s, 0);
        crate::bitboard::lemma_from_bits(|i: u64| bit(o, i ^ 56u64), s ^ 56u64);
        if bit(l, s) {
            assert(bit(o, s));
        }
    }
}

/// Whether a slider on `x` attacks `t` along a line depends only on the pieces of the line
/// other than on `t`: two occupancies that agree everywhere but on `t` give the same answer.
pub proof fn lemma_line_local(o1: u64, o2: u64, x: u64, l: u64, t: u64)
    requires
        x < 64,
        t < 64,
        x != t,
        forall|j: u64| j < 64 && j != t ==> #[trigger] bit(o1, j) == bit(o2, j),
    ensures
        bit(line_attack_set(o1, x, l), t) == bit(line_attack_set(o2, x, l), t),
        bit(rank_attack_set(o1, x, l), t) == bit(rank_attack_set(o2, x, l), t),
{
    let x1 = o1 & !sq_bb(x);
    let x2 = o2 & !sq_bb(x);
    assert forall|j: u64| j < 64 && j != t implies #[trigger] bit(x1, j) == bit(x2, j) by {
        assert(bit(o1, j) == bit(o2, j));
        lemma_bit_ops(o1, !sq_bb(x), j);
        lemma_bit_ops(o2, !sq_bb(x), j);
        lemma_bit_ops(sq_bb(x), sq_bb(x), j);
    }
    assert forall|jj: u64| jj < 64 && jj != (t ^ 56u64) implies #[trigger] bit(vflip(x1), jj) == bit(vflip(x2), jj) by {
        crate::bitboard::lemma_from_bits(|i: u64| bit(x1, i ^ 56u64), jj);
        crate::bitboard::lemma_from_bits(|i: u64| bit(x2, i ^ 56u64), jj);
        lemma_line_order(jj, t, 0);
        lemma_line_order(t, jj, 0);
    }
    lemma_line_order(x, t, 0);
    lemma_line_order(t, x, 0);
    lemma_and_zero(x1, between_mask(x, t));
    lemma_and_zero(x2, between_mask(x, t));
    lemma_and_zero(x1, between_mask(t, x));
    lemma_and_zero(x2, between_mask(t, x));
    lemma_and_zero(vflip(x1), between_mask(x ^ 56u64, t ^ 56u64));
    lemma_and_zero(vflip(x2), between_mask(x ^ 56u64, t ^ 56u64));
    assert forall|j: u64| j < 64 implies (x < t && #[trigger] bit(between_mask(x, t), j) ==> j != t) && (t < x && bit(between_mask(t, x), j) ==> j != t)
        && ((x ^ 56u64) < (t ^ 56u64) && bit(between_mask(x ^ 56u64, t ^ 56u64), j) ==> j != (t ^ 56u64)) by {
        lemma_line_order(x, t, j);
        lemma_line_order(t, x, j);
        lemma_line_order(x ^ 56u64, t ^ 56u64, j);
    }
    if x < t {
        let m = between_mask(x, t);
        if x1 & m == 0 {
            assert forall|j: u64| j < 64 implies !(#[trigger] bit(x2, j) && bit(m, j)) by {
                if bit(m, j) {
                    assert(bit(x1, j) == bit(x2, j));
                }
            }
        }
        if x2 & m == 0 {
            assert forall|j: u64| j < 64 implies !(#[trigger] bit(x1, j) && bit(m, j)) by {
                if bit(m, j) {
                    assert(bit(x1, j) == bit(x2, j));
                }
            }
        }
        assert((x1 & m == 0) == (x2 & m == 0));
    }
    if t < x {
        let m = between_mask(t, x);
        if x1 & m == 0 {
            assert forall|j: u64| j < 64 implies !(#[trigger] bit(x2, j) && bit(m, j)) by {
                if bit(m, j) {
                    assert(bit(x1, j) == bit(x2, j));
                }
            }
        }
        if x2 & m == 0 {
            assert forall|j: u64| j < 64 implies !(#[trigger] bit(x1, j) && bit(m, j)) by {
                if bit(m, j) {
                    assert(bit(x1, j) == bit(x2, j));
                }
            }
        }
        assert((x1 & m == 0) == (x2 & m == 0));
    }
    if (x ^ 56u64) < (t ^ 56u64) {
        let m = between_mask(x ^ 56u64, t ^ 56u64);
        let v1 = vflip(x1);
        let v2 = vflip(x2);
        if v1 & m == 0 {
            assert forall|j: u64| j < 64 implies !(#[trigger] bit(v2, j) && bit(m, j)) by {
                if bit(m, j) {
                    assert(bit(v1, j) == bit(v2, j));
                }
            }
        }
        if v2 & m == 0 {
            assert forall|j: u64| j < 64 implies !(#[trigger] bit(v1, j) && bit(m, j)) by {
                if bit(m, j) {
                    assert(bit(v1, j) == bit(v2, j));
                }
            }
        }
        assert((v1 & m == 0) == (v2 & m == 0));
    }
    lemma_line_order(x ^ 56u64, t ^ 56u64, 0);
    crate::bitboard::lemma_from_bits(
        |u: u64|
            bit(l, u) && (up_reach(o1 & !sq_bb(x), o1, x, u) || up_reach(vflip(o1 & !sq_bb(x)), vflip(o1), x ^ 56u64, u ^ 56u64)),
        t,
    );
    crate::bitboard::lemma_from_bits(
        |u: u64|
            bit(l, u) && (up_reach(o2 & !sq_bb(x), o2, x, u) || up_reach(vflip(o2 & !sq_bb(x)), vflip(o2), x ^ 56u64, u ^ 56u64)),
        t,
    );
    crate::bitboard::lemma_from_bits(
        |u: u64| bit(l, u) && (up_reach(o1 & !sq_bb(x), o1, x, u) || (u < x && (o1 & !sq_bb(x)) & between_mask(u, x) == 0)),
        t,
    );
    crate::bitboard::lemma_from_bits(
        |u: u64| bit(l, u) && (up_reach(o2 & !sq_bb(x), o2, x, u) || (u < x && (o2 & !sq_bb(x)) & between_mask(u, x) == 0)),
        t,
    );
}

// ---------------------------------------------------------------------------
// Rays between two squares
// ---------------------------------------------------------------------------

/// Square `t` lies on the straight segment from `from` to `to` (both ends included): on their
/// common rank, file, diagonal or anti-diagonal, between them. Unaligned squares have no segment.
pub open spec fn on_segment(from: u64, to: u64, t: u64) -> bool {
    let rf = from / 8;
    let ff = from % 8;
    let rt = to / 8;
    let ft = to % 8;
    let r = t / 8;
    let f = t % 8;
    let rlo = if rf <= rt { rf } else { rt };
    let rhi = if rf <= rt { rt } else { rf };
    let flo = if ff <= ft { ff } else { ft };
    let fhi = if ff <= ft { ft } else { ff };
    if rf == rt {
        r == rf && flo <= f <= fhi
    } else if ff == ft {
        f == ff && rlo <= r <= rhi
    } else if rt + ff == ft + rf {
        r + ff == f + rf && rlo <= r <= rhi
    } else if rt + ft == rf + ff {
        r + f == rf + ff && rlo <= r <= rhi
    } else {
        false
    }
}

/// The squares of the segment from `from` to `to`.
pub open spec fn attack_ray_spec(from: u64, to: u64) -> u64 {
    from_bits(|t: u64| on_segment(from, to, t))
}

/// The squares with index from `lo` to `hi`.
pub open spec fn index_range(lo: u64, hi: u64) -> u64 {
    ((((1u64 << hi) - 1u64) as u64) | (1u64 << hi)) & !(((1u64 << lo) - 1u64) as u64)
}

/// The line through both squares (when aligned) restricted to the squares between them by index.
pub open spec fn segment_mask(from: u64, to: u64) -> u64 {
    let rf = from >> 3u64;
    let ff = from & 7u64;
    let rt = to >> 3u64;
    let ft = to & 7u64;
    let range = if from <= to { index_range(from, to) } else { index_range(to, from) };
    if rf == rt {
        (0xffu64 << (rf * 8)) & range
    } else if ff == ft {
        (0x0101010101010101u64 << ff) & range
    } else if rt + ff == ft + rf {
        (if rf >= ff {
            0x8040201008040201u64 << (((rf - ff) * 8) as u64)
        } else {
            0x8040201008040201u64 >> (((ff - rf) * 8) as u64)
        }) & range
    } else if rt + ft == rf + ff {
        (if rf + ff >= 7 {
            0x0102040810204080u64 << (((rf + ff - 7) * 8) as u64)
        } else {
            0x0102040810204080u64 >> (((7 - rf - ff) * 8) as u64)
        }) & range
    } else {
        0
    }
}

proof fn lemma_segment_mask(from: u64, to: u64, t: u64)
    by (bit_vector)
    requires
        from < 64,
        to < 64,
        t < 64,
    ensures
        (((segment_mask(from, to) >> t) & 1u64) == 1u64) == on_segment(from, to, t),
{
}

/// The ray from an attacking square to a king square, both ends included (0 when the
/// squares are not on a common rank, file or diagonal).
pub fn attack_ray(from: usize, to: usize) -> (r: u64)
    requires
        from < 64,
        to < 64,
    ensures
        r == attack_ray_spec(from as u64, to as u64),
{
    let f: u64 = from as u64;
    let t: u64 = to as u64;
    let rf: u64 = f >> 3;
    let ff: u64 = f & 7;
    let rt: u64 = t >> 3;
    let ft: u64 = t & 7;
    proof {
        assert(rf < 8 && ff < 8 && rt < 8 && ft < 8) by (bit_vector)
            requires
                f < 64,
                t < 64,
                rf == f >> 3u64,
                ff == f & 7u64,
                rt == t >> 3u64,
                ft == t & 7u64,
        ;
    }
    let (lo, hi) = if f <= t {
        (f, t)
    } else {
        (t, f)
    };
    proof {
        lemma_scan_arith(lo);
        lemma_scan_arith(hi);
    }
    let range: u64 = (((1u64 << hi) - 1) | (1u64 << hi)) & !((1u64 << lo) - 1);
    let r: u64 = if rf == rt {
        (0xffu64 << (rf * 8)) & range
    } else if ff == ft {
        (0x0101010101010101u64 << ff) & range
    } else if rt + ff == ft + rf {
        (if rf >= ff {
            0x8040201008040201u64 << ((rf - ff) * 8)
        } else {
            0x8040201008040201u64 >> ((ff - rf) * 8)
        }) & range
    } else if rt + ft == rf + ff {
        (if rf + ff >= 7 {
            0x0102040810204080u64 << ((rf + ff - 7) * 8)
        } else {
            0x0102040810204080u64 >> ((7 - rf - ff) * 8)
        }) & range
    } else {
        0
    };
    proof {
        assert(r == segment_mask(f, t));
        let p = |x: u64| on_segment(f, t, x);
        assert forall|x: u64| x < 64 implies bit(r, x) == p(x) by {
            lemma_segment_mask(f, t, x);
        }
        lemma_from_bits_unique(p, r);
    }
    r
}

} // verus!
