use vstd::prelude::*;
use vstd::std_specs::bits::{u64_trailing_zeros, axiom_u64_trailing_zeros};

verus! {

// ---------------------------------------------------------------------------
// The mathematical model of a bitboard: square `i` (0 = a1 .. 63 = h8) is
// occupied iff bit `i` is set.
// ---------------------------------------------------------------------------

/// Square `i` is set in bitboard `b`.
pub open spec fn bit(b: u64, i: u64) -> bool {
    (b >> i) & 1u64 == 1u64
}

/// The bitboard holding only square `i`.
pub open spec fn sq_bb(i: u64) -> u64 {
    1u64 << i
}

/// The squares strictly between `a` and `b` (by index), for `a < b < 64`.
pub open spec fn between_mask(a: u64, b: u64) -> u64 {
    (((1u64 << b) - 1u64) as u64) ^ (((2u64 << a) - 1u64) as u64)
}

/// Index of the lowest set square of a non-empty bitboard.
pub open spec fn lsb_index(b: u64) -> u64 {
    u64_trailing_zeros(b) as u64
}

/// The bitboard with its lowest set square removed.
pub open spec fn clear_lsb(b: u64) -> u64 {
    b & ((b - 1) as u64)
}

/// The bitboard whose square `t` is set exactly when `p(t)` holds, built from squares `0..k`.
pub open spec fn from_bits_upto(p: spec_fn(u64) -> bool, k: nat) -> u64
    decreases k,
{
    if k == 0 {
        0
    } else {
        from_bits_upto(p, (k - 1) as nat) | (if p((k - 1) as u64) {
            1u64 << ((k - 1) as u64)
        } else {
            0u64
        })
    }
}

/// The bitboard whose square `t` is set exactly when `p(t)` holds.
pub open spec fn from_bits(p: spec_fn(u64) -> bool) -> u64 {
    from_bits_upto(p, 64)
}

/// The set squares of `b`, in ascending order.
pub open spec fn bits_seq(b: u64) -> Seq<u64>
    decreases b,
{
    if b == 0 {
        Seq::empty()
    } else {
        proof {
            lemma_clear_lsb_smaller(b);
        }
        seq![lsb_index(b)].add(bits_seq(clear_lsb(b)))
    }
}

/// Number of set squares.
pub open spec fn popcount(b: u64) -> nat {
    bits_seq(b).len()
}

/// Union of `f(s)` over every set square `s` of `b`.
pub open spec fn union_over(b: u64, f: spec_fn(u64) -> u64) -> u64
    decreases b,
{
    if b == 0 {
        0
    } else {
        proof {
            lemma_clear_lsb_smaller(b);
        }
        f(lsb_index(b)) | union_over(clear_lsb(b), f)
    }
}

/// A bitboard that is all ones when `b` holds and all zeros otherwise.
pub open spec fn bool_mask(b: bool) -> u64 {
    if b {
        u64::MAX
    } else {
        0
    }
}

/// Vertical flip of a board (rank `r` becomes rank `7 - r`): square `i` goes to `i ^ 56`.
pub open spec fn vflip(b: u64) -> u64 {
    from_bits(|i: u64| bit(b, i ^ 56u64))
}

// ---------------------------------------------------------------------------
// Lemmas
// ---------------------------------------------------------------------------

pub proof fn lemma_clear_lsb_smaller(b: u64)
    requires
        b != 0,
    ensures
        clear_lsb(b) < b,
{
    assert(b != 0 ==> b & ((b - 1) as u64) < b) by (bit_vector);
}

proof fn lemma_lsb_facts_bv(b: u64, t: u64)
    by (bit_vector)
    requires
        t < 64,
        (b >> t) & 1u64 == 1u64,
        b << ((64 - t) as u64) == 0,
    ensures
        b & ((b - 1) as u64) == b ^ (1u64 << t),
        forall|j: u64| j < t ==> (b >> j) & 1u64 == 0u64,
{
}

/// The lowest set square of a non-empty board: it is set, no square below it is,
/// and clearing it removes exactly that square.
pub proof fn lemma_lsb(b: u64)
    requires
        b != 0,
    ensures
        lsb_index(b) < 64,
        bit(b, lsb_index(b)),
        forall|j: u64| j < lsb_index(b) ==> !bit(b, j),
        clear_lsb(b) == b ^ sq_bb(lsb_index(b)),
        forall|j: u64| j < 64 ==> bit(clear_lsb(b), j) == (bit(b, j) && j != lsb_index(b)),
{
    axiom_u64_trailing_zeros(b);
    let t = lsb_index(b);
    lemma_lsb_facts_bv(b, t);
    assert forall|j: u64| j < 64 implies bit(clear_lsb(b), j) == (bit(b, j) && j != t) by {
        lemma_bit_xor_single(b, t, j);
    }
}

pub proof fn lemma_bit_xor_single(b: u64, t: u64, j: u64)
    by (bit_vector)
    requires
        t < 64,
        j < 64,
    ensures
        ((((b ^ (1u64 << t)) >> j) & 1u64) == 1u64) == (((b >> j) & 1u64) == 1u64 && j != t)
            || (((b >> j) & 1u64) != 1u64 && j == t),
{
}

/// Squares of the basic bitwise operations.
pub proof fn lemma_bit_ops(a: u64, b: u64, i: u64)
    by (bit_vector)
    requires
        i < 64,
    ensures
        (((a | b) >> i) & 1u64 == 1u64) == (((a >> i) & 1u64 == 1u64) || ((b >> i) & 1u64
            == 1u64)),
        (((a & b) >> i) & 1u64 == 1u64) == (((a >> i) & 1u64 == 1u64) && ((b >> i) & 1u64
            == 1u64)),
        (((a ^ b) >> i) & 1u64 == 1u64) == (((a >> i) & 1u64 == 1u64) != ((b >> i) & 1u64
            == 1u64)),
        (((!a) >> i) & 1u64 == 1u64) == !((a >> i) & 1u64 == 1u64),
        !(((0u64 >> i) & 1u64) == 1u64),
        (((u64::MAX) >> i) & 1u64) == 1u64,
        (a >> i) & 1u64 == 1u64 || (a >> i) & 1u64 == 0u64,
        a >> 64u64 == 0u64,
        a >> 0u64 == a,
{
}

pub proof fn lemma_bit_or(a: u64, b: u64, i: u64)
    requires
        i < 64,
    ensures
        bit(a | b, i) == (bit(a, i) || bit(b, i)),
{
    lemma_bit_ops(a, b, i);
}

pub proof fn lemma_bit_single(t: u64, i: u64)
    by (bit_vector)
    requires
        t < 64,
    ensures
        (((1u64 << t) >> i) & 1u64 == 1u64) == (i == t),
{
}

pub proof fn lemma_bit_zero(i: u64)
    requires
        i < 64,
    ensures
        !bit(0, i),
        bit(u64::MAX, i),
{
    lemma_bit_ops(0, 0, i);
}

pub proof fn lemma_or_assoc(a: u64, b: u64, c: u64)
    by (bit_vector)
    ensures
        (a | b) | c == a | (b | c),
        a | 0 == a,
        0 | a == a,
        a | b == b | a,
{
}

proof fn lemma_shift_step(a: u64, b: u64, k: u64)
    by (bit_vector)
    requires
        k < 64,
        (a >> ((k + 1) as u64)) == (b >> ((k + 1) as u64)),
        (a >> k) & 1u64 == (b >> k) & 1u64,
    ensures
        a >> k == b >> k,
{
}

proof fn lemma_ext_from(a: u64, b: u64, k: u64)
    requires
        k <= 64,
        forall|i: u64| k <= i < 64 ==> bit(a, i) == bit(b, i),
    ensures
        a >> k == b >> k,
    decreases 64 - k,
{
    lemma_bit_ops(a, b, 0);
    lemma_bit_ops(b, a, 0);
    if k < 64 {
        lemma_ext_from(a, b, (k + 1) as u64);
        assert(bit(a, k) == bit(b, k));
        lemma_bit_ops(a, b, k);
        lemma_bit_ops(b, a, k);
        lemma_shift_step(a, b, k);
    }
}

/// Two bitboards with the same squares are equal.
pub proof fn lemma_ext(a: u64, b: u64)
    requires
        forall|i: u64| i < 64 ==> bit(a, i) == bit(b, i),
    ensures
        a == b,
{
    lemma_ext_from(a, b, 0);
    lemma_bit_ops(a, b, 0);
    lemma_bit_ops(b, a, 0);
}

proof fn lemma_from_bits_upto(p: spec_fn(u64) -> bool, k: nat, t: u64)
    requires
        k <= 64,
        t < 64,
    ensures
        bit(from_bits_upto(p, k), t) == (t < k && p(t)),
    decreases k,
{
    if k == 0 {
        lemma_bit_zero(t);
    } else {
        let km = (k - 1) as u64;
        lemma_from_bits_upto(p, (k - 1) as nat, t);
        let m: u64 = if p(km) {
            1u64 << km
        } else {
            0u64
        };
        lemma_bit_or(from_bits_upto(p, (k - 1) as nat), m, t);
        if p(km) {
            lemma_bit_single(km, t);
        } else {
            lemma_bit_zero(t);
        }
    }
}

/// The squares of `from_bits(p)` are exactly those satisfying `p`.
pub proof fn lemma_from_bits(p: spec_fn(u64) -> bool, t: u64)
    requires
        t < 64,
    ensures
        bit(from_bits(p), t) == p(t),
{
    lemma_from_bits_upto(p, 64, t);
}

/// A bitboard whose squares satisfy `p` exactly is `from_bits(p)`.
pub proof fn lemma_from_bits_unique(p: spec_fn(u64) -> bool, b: u64)
    requires
        forall|t: u64| t < 64 ==> bit(b, t) == p(t),
    ensures
        b == from_bits(p),
{
    assert forall|t: u64| t < 64 implies bit(b, t) == bit(from_bits(p), t) by {
        lemma_from_bits(p, t);
    }
    lemma_ext(b, from_bits(p));
}

/// One step of a loop that consumes the set squares of a board lowest first.
pub proof fn lemma_union_step(acc: u64, b: u64, f: spec_fn(u64) -> u64)
    requires
        b != 0,
    ensures
        (acc | f(lsb_index(b))) | union_over(clear_lsb(b), f) == acc | union_over(b, f),
{
    lemma_or_assoc(acc, f(lsb_index(b)), union_over(clear_lsb(b), f));
}

/// Masking with nothing gives nothing; masking with everything keeps the board.
pub proof fn lemma_and_identities()
    by (bit_vector)
    ensures
        forall|y: u64| #![trigger y & 0u64] y & 0u64 == 0,
        forall|y: u64| #![trigger y & u64::MAX] y & u64::MAX == y,
        forall|y: u64| #![trigger y | 0u64] y | 0u64 == y,
        forall|y: u64| #![trigger 0u64 & y] 0u64 & y == 0,
        forall|k: u64| #![trigger 0u64 >> k] 0u64 >> k == 0,
        forall|k: u64| #![trigger 0u64 << k] 0u64 << k == 0,
{
}

/// A union of empty boards is empty.
pub proof fn lemma_union_over_zero(b: u64, f: spec_fn(u64) -> u64)
    requires
        forall|s: u64| #[trigger] f(s) == 0,
    ensures
        union_over(b, f) == 0,
    decreases b,
{
    if b != 0 {
        lemma_clear_lsb_smaller(b);
        lemma_union_over_zero(clear_lsb(b), f);
        lemma_or_assoc(0, 0, 0);
    }
}

/// Squares of a union over the set squares of a board.
pub proof fn lemma_union_over_bit(b: u64, f: spec_fn(u64) -> u64, t: u64)
    requires
        t < 64,
    ensures
        bit(union_over(b, f), t) <==> exists|s: u64| #[trigger] bit(b, s) && s < 64 && bit(f(s), t),
    decreases b,
{
    if b == 0 {
        lemma_bit_zero(t);
        assert forall|s: u64| s < 64 implies !#[trigger] bit(b, s) by {
            lemma_bit_zero(s);
        }
    } else {
        lemma_lsb(b);
        lemma_clear_lsb_smaller(b);
        let l = lsb_index(b);
        lemma_union_over_bit(clear_lsb(b), f, t);
        lemma_bit_or(f(l), union_over(clear_lsb(b), f), t);
        if bit(union_over(b, f), t) {
            if !bit(f(l), t) {
                let s = choose|s: u64| #[trigger] bit(clear_lsb(b), s) && s < 64 && bit(f(s), t);
                assert(bit(b, s));
            }
        } else {
            assert forall|s: u64| #[trigger] bit(b, s) && s < 64 implies !bit(f(s), t) by {
                if s != l {
                    assert(bit(clear_lsb(b), s));
                }
            }
        }
    }
}

/// The number of set squares is at most 64.
pub proof fn lemma_popcount_bound(b: u64)
    ensures
        popcount(b) <= 64,
        b == 0 <==> popcount(b) == 0,
{
    lemma_bits_seq_sorted(b);
    let s = bits_seq(b);
    if b != 0 {
        // the sequence is strictly increasing and below 64
        lemma_sorted_len(s, s.len());
    }
}

proof fn lemma_sorted_len(s: Seq<u64>, n: nat)
    requires
        n == s.len(),
        forall|i: int, j: int| 0 <= i < j < s.len() ==> s[i] < s[j],
        forall|i: int| 0 <= i < s.len() ==> s[i] < 64,
    ensures
        s.len() <= 64,
    decreases n,
{
    if s.len() > 64 {
        // s[i] >= i for all i
        assert forall|i: int| 0 <= i < s.len() implies s[i] >= i by {
            lemma_sorted_ge_index(s, i);
        }
        assert(s[64] >= 64);
    }
}

proof fn lemma_sorted_ge_index(s: Seq<u64>, i: int)
    requires
        0 <= i < s.len(),
        forall|a: int, b: int| 0 <= a < b < s.len() ==> s[a] < s[b],
    ensures
        s[i] >= i,
    decreases i,
{
    if i > 0 {
        lemma_sorted_ge_index(s, i - 1);
    }
}

/// The set squares of a board are listed in strictly ascending order, all below 64,
/// and exactly the set squares appear.
pub proof fn lemma_bits_seq_sorted(b: u64)
    ensures
        forall|i: int, j: int|
            0 <= i < j < bits_seq(b).len() ==> bits_seq(b)[i] < bits_seq(b)[j],
        forall|i: int| 0 <= i < bits_seq(b).len() ==> bits_seq(b)[i] < 64,
        forall|i: int| 0 <= i < bits_seq(b).len() ==> bit(b, #[trigger] bits_seq(b)[i]),
        forall|t: u64| t < 64 && bit(b, t) ==> bits_seq(b).contains(t),
    decreases b,
{
    if b == 0 {
        assert forall|t: u64| t < 64 && bit(b, t) implies bits_seq(b).contains(t) by {
            lemma_bit_zero(t);
        }
    } else {
        lemma_lsb(b);
        lemma_clear_lsb_smaller(b);
        let c = clear_lsb(b);
        lemma_bits_seq_sorted(c);
        let l = lsb_index(b);
        let s = bits_seq(b);
        assert(s == seq![l].add(bits_seq(c)));
        assert forall|i: int| 0 <= i < bits_seq(c).len() implies l < #[trigger] bits_seq(c)[i] by {
            let v = bits_seq(c)[i];
            assert(bit(c, v));
            assert(bit(b, v) && v != l);
        }
        assert forall|t: u64| t < 64 && bit(b, t) implies s.contains(t) by {
            if t == l {
                assert(s[0] == t);
            } else {
                assert(bit(c, t));
                assert(bits_seq(c).contains(t));
                let k = choose|k: int| 0 <= k < bits_seq(c).len() && bits_seq(c)[k] == t;
                assert(s[k + 1] == t);
            }
        }
        assert forall|i: int| 0 <= i < s.len() implies bit(b, #[trigger] s[i]) by {
            if i > 0 {
                assert(s[i] == bits_seq(c)[i - 1]);
                assert(bit(c, s[i]));
            }
        }
    }
}

// ---------------------------------------------------------------------------
// Executable helpers
// ---------------------------------------------------------------------------

/// All ones when `b` holds, all zeros otherwise.
pub fn bool_to_bitboard(b: bool) -> (r: u64)
    ensures
        r == bool_mask(b),
{
    if b {
        u64::MAX
    } else {
        0
    }
}

/// Index of the lowest set square (64 for an empty board).
pub fn lowest_square(b: u64) -> (r: u64)
    ensures
        b != 0 ==> r == lsb_index(b) && r < 64,
        b == 0 ==> r == 64,
{
    proof {
        axiom_u64_trailing_zeros(b);
    }
    b.trailing_zeros() as u64
}

/// Number of set squares.
pub fn count_ones(b: u64) -> (r: u32)
    ensures
        r as nat == popcount(b),
        r <= 64,
{
    let mut rest = b;
    let mut n: u32 = 0;
    proof {
        lemma_popcount_bound(b);
    }
    while rest != 0
        invariant
            n as nat + popcount(rest) == popcount(b),
            popcount(b) <= 64,
        decreases rest,
    {
        proof {
            lemma_clear_lsb_smaller(rest);
        }
        rest = rest & (rest - 1);
        n = n + 1;
    }
    n
}

proof fn lemma_swap_bytes_bv(b: u64, i: u64)
    by (bit_vector)
    requires
        i < 64,
    ensures
        ((((b << 56u64) | ((b & 0xff00u64) << 40u64) | ((b & 0xff0000u64) << 24u64) | ((b
            & 0xff000000u64) << 8u64) | ((b >> 8u64) & 0xff000000u64) | ((b >> 24u64)
            & 0xff0000u64) | ((b >> 40u64) & 0xff00u64) | (b >> 56u64)) >> i) & 1u64 == 1u64)
            == (((b >> (i ^ 56u64)) & 1u64) == 1u64),
{
}

/// Reverses the byte order, i.e. flips the board vertically.
pub fn swap_bytes(b: u64) -> (r: u64)
    ensures
        r == vflip(b),
        forall|i: u64| i < 64 ==> bit(r, i) == bit(b, i ^ 56u64),
{
    let r: u64 = (b << 56u64) | ((b & 0xff00u64) << 40u64) | ((b & 0xff0000u64) << 24u64) | ((b
        & 0xff000000u64) << 8u64) | ((b >> 8u64) & 0xff000000u64) | ((b >> 24u64) & 0xff0000u64)
        | ((b >> 40u64) & 0xff00u64) | (b >> 56u64);
    proof {
        assert forall|i: u64| i < 64 implies bit(r, i) == bit(b, i ^ 56u64) by {
            lemma_swap_bytes_bv(b, i);
        }
        let p = |i: u64| bit(b, i ^ 56u64);
        assert forall|t: u64| t < 64 implies bit(r, t) == p(t) by {}
        lemma_from_bits_unique(p, r);
    }
    r
}

} // verus!
