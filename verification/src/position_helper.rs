use vstd::prelude::*;
use vstd::string::*;
use crate::bitboard::{bit, bits_seq, popcount, sq_bb, bool_mask, bool_to_bitboard, lemma_bits_seq_sorted};

verus! {

/// Appends one character to a string (`String::push`).
#[verifier::external_body]
pub(crate) fn string_push(s: &mut String, c: char)
    ensures
        final(s)@ == old(s)@.push(c),
{
    s.push(c);
}

/// The character of the file letter ('a'..) of a square index.
pub open spec fn file_char(index: u8) -> char {
    (((index & 7u8) + 97) as u8) as char
}

/// The character of the rank digit ('1'..) of a square index.
pub open spec fn rank_char(index: u8) -> char {
    (((index >> 3u8) + 49) as u8) as char
}

/// The algebraic name of a square index, e.g. 0 is "a1" and 63 is "h8".
pub open spec fn square_name(index: u8) -> Seq<char> {
    seq![file_char(index), rank_char(index)]
}

/// The index `index_from_algebraic` computes from the bytes of a square name.
pub open spec fn algebraic_index(b: Seq<u8>) -> int {
    ((((b[1] - 49) as u8) << 3u8) as int) + (b[0] - 97)
}

/// The bytes name a square on which `index_from_algebraic` does not fail.
pub open spec fn algebraic_index_ok(b: Seq<u8>) -> bool {
    &&& b.len() >= 2
    &&& b[1] >= 49
    &&& b[0] >= 97
    &&& algebraic_index(b) <= 255
}

/// The bytes start with a file letter 'a'..'h' and a rank digit '1'..'8'.
pub open spec fn is_square_name(b: Seq<u8>) -> bool {
    &&& b.len() >= 2
    &&& 97 <= b[0] <= 104
    &&& 49 <= b[1] <= 56
}

/// Every name in the list can be turned into a square below 64.
pub open spec fn all_squares_ok(squares: Seq<&str>) -> bool {
    forall|i: int|
        0 <= i < squares.len() ==> algebraic_index_ok(#[trigger] squares[i].spec_bytes())
            && algebraic_index(squares[i].spec_bytes()) < 64
}

/// The bitboard holding the squares named in the list.
pub open spec fn squares_bitboard(squares: Seq<&str>) -> u64
    decreases squares.len(),
{
    if squares.len() == 0 {
        0
    } else {
        squares_bitboard(squares.drop_last()) | sq_bb(
            algebraic_index(squares.last().spec_bytes()) as u64,
        )
    }
}

/// The set squares of `b` below `n`, in ascending order.
pub open spec fn squares_below(b: u64, n: nat) -> Seq<u64>
    decreases n,
{
    if n == 0 {
        Seq::empty()
    } else if bit(b, (n - 1) as u64) {
        squares_below(b, (n - 1) as nat).push((n - 1) as u64)
    } else {
        squares_below(b, (n - 1) as nat)
    }
}

/// The names of the set squares of `b`, in ascending order of index.
pub open spec fn square_names(b: u64) -> Seq<Seq<char>> {
    squares_below(b, 64).map_values(|s: u64| square_name(s as u8))
}

pub struct PositionHelper {}

proof fn lemma_index_of_square_name_bv(b0: u8, b1: u8)
    by (bit_vector)
    requires
        97 <= b0 <= 104,
        49 <= b1 <= 56,
    ensures
        (((b1 - 49) as u8) << 3u8) == (b1 - 49) * 8,
{
}

/// The file part of a byte is below 8 and its rank part below 32 (below 8 for a square).
pub proof fn lemma_byte_parts(i: u8)
    by (bit_vector)
    ensures
        i & 7u8 <= 7,
        i >> 3u8 <= 31,
        i < 64 ==> (i >> 3u8) < 8u8,
        i < 64 ==> i >> 3u8 == i / 8,
{
}

proof fn lemma_name_of_index_bv(i: u8)
    by (bit_vector)
    requires
        i < 64,
    ensures
        (i & 7u8) == i % 8,
        (i >> 3u8) == i / 8,
{
}

impl PositionHelper {
    /// The index of a named square: rank and file from the first two bytes by ASCII arithmetic.
    pub fn index_from_algebraic(sq: &str) -> (r: u8)
        requires
            algebraic_index_ok(sq.spec_bytes()),
        ensures
            r as int == algebraic_index(sq.spec_bytes()),
    {
        let bytes = sq.as_bytes();
        ((bytes[1] - 49) << 3) + (bytes[0] - 97)
    }

    /// The file letter of a square index.
    pub fn algebraic_file_from_index(index: u8) -> (c: char)
        ensures
            c == file_char(index),
    {
        proof {
            lemma_byte_parts(index);
        }
        ((index & 7) + 97) as u8 as char
    }

    /// The rank digit of a square index.
    pub fn algebraic_rank_from_index(index: u8) -> (c: char)
        ensures
            c == rank_char(index),
    {
        proof {
            lemma_byte_parts(index);
        }
        ((index >> 3) + 49) as u8 as char
    }

    /// The algebraic name of a square index.
    pub fn algebraic_from_index(index: u8) -> (s: String)
        ensures
            s@ == square_name(index),
    {
        let mut sq = String::new();
        string_push(&mut sq, PositionHelper::algebraic_file_from_index(index));
        string_push(&mut sq, PositionHelper::algebraic_rank_from_index(index));
        proof {
            assert(sq@ =~= square_name(index));
        }
        sq
    }

    /// Rank (0..7) and file (0..7) of a square index.
    pub fn rank_and_file_from_index(index: u8) -> (rf: (u8, u8))
        ensures
            rf.0 == index >> 3u8,
            rf.1 == index & 7u8,
            rf.0 <= 31 && rf.1 <= 7,
            index < 64 ==> rf.0 == index / 8 && rf.1 == index % 8,
    {
        proof {
            lemma_byte_parts(index);
            if index < 64 {
                lemma_name_of_index_bv(index);
            }
        }
        (index >> 3, index & 7)
    }

    /// All ones when `b` holds, all zeros otherwise.
    pub fn bool_to_bitboard(b: bool) -> (r: u64)
        ensures
            r == bool_mask(b),
    {
        bool_to_bitboard(b)
    }

    /// The bitboard of the named squares (0 for an empty list).
    pub fn bitboard_from_algebraic(squares: Vec<&str>) -> (r: u64)
        requires
            all_squares_ok(squares@),
        ensures
            r == squares_bitboard(squares@),
    {
        if squares.len() <= 0 {
            return 0;
        }
        let mut result: u64 = 0;
        let mut i: usize = 0;
        while i < squares.len()
            invariant
                0 <= i <= squares@.len(),
                all_squares_ok(squares@),
                result == squares_bitboard(squares@.subrange(0, i as int)),
            decreases squares@.len() - i,
        {
            let index = PositionHelper::index_from_algebraic(squares[i]);
            result = result | (1u64 << index);
            proof {
                let s = squares@.subrange(0, i + 1);
                assert(s.drop_last() =~= squares@.subrange(0, i as int));
                assert(s.last() == squares@[i as int]);
            }
            i = i + 1;
        }
        proof {
            assert(squares@.subrange(0, squares@.len() as int) =~= squares@);
        }
        result
    }

    /// The names of the set squares of a bitboard, in ascending order of index.
    pub fn algebraic_from_bitboard(bitboard: u64) -> (r: Vec<String>)
        ensures
            r@.map_values(|s: String| s@) == square_names(bitboard),
    {
        let mut result: Vec<String> = Vec::new();
        let mut mask: u64 = 0x1;
        let mut bit_index: u8 = 0;
        proof {
            assert(result@.map_values(|s: String| s@) =~= squares_below(bitboard, 0).map_values(
                |s: u64| square_name(s as u8),
            ));
            assert(1u64 << 0u64 == 1u64) by (bit_vector);
        }
        while bit_index < 64
            invariant
                bit_index <= 64,
                mask == sq_bb(bit_index as u64) || bit_index == 64,
                result@.map_values(|s: String| s@) == squares_below(bitboard, bit_index as nat).map_values(
                    |s: u64| square_name(s as u8),
                ),
            decreases 64 - bit_index,
        {
            proof {
                lemma_mask_bit(bitboard, bit_index as u64);
            }
            let ghost old_result = result@;
            if mask & bitboard > 0 {
                result.push(PositionHelper::algebraic_from_index(bit_index));
                proof {
                    assert(result@ == old_result.push(result@.last()));
                    assert(result@.map_values(|s: String| s@) =~= old_result.map_values(
                        |s: String| s@,
                    ).push(square_name(bit_index)));
                    assert(squares_below(bitboard, (bit_index + 1) as nat) == squares_below(
                        bitboard,
                        bit_index as nat,
                    ).push(bit_index as u64));
                    assert(squares_below(bitboard, (bit_index + 1) as nat).map_values(
                        |s: u64| square_name(s as u8),
                    ) =~= squares_below(bitboard, bit_index as nat).map_values(
                        |s: u64| square_name(s as u8),
                    ).push(square_name(bit_index)));
                }
            }
            proof {
                lemma_mask_shift(bit_index as u64);
            }
            mask = mask << 1;
            bit_index = bit_index + 1;
        }
        result
    }
}

proof fn lemma_mask_bit(b: u64, i: u64)
    by (bit_vector)
    requires
        i < 64,
    ensures
        ((1u64 << i) & b > 0) == (((b >> i) & 1u64) == 1u64),
{
}

proof fn lemma_mask_shift(i: u64)
    by (bit_vector)
    requires
        i < 64,
    ensures
        (1u64 << i) << 1u64 == 1u64 << ((i + 1) as u64) || i == 63,
{
}

/// A square index and its algebraic name convert into each other.
pub proof fn lemma_algebraic_roundtrip(index: u8)
    requires
        index < 64,
    ensures
        is_square_name(seq![(97 + index % 8) as u8, (49 + index / 8) as u8]),
        algebraic_index(seq![(97 + index % 8) as u8, (49 + index / 8) as u8]) == index,
        square_name(index) == seq![((97 + index % 8) as u8) as char, ((49 + index / 8) as u8) as char],
{
    lemma_name_of_index_bv(index);
    let b0: u8 = (97 + index % 8) as u8;
    let b1: u8 = (49 + index / 8) as u8;
    lemma_index_of_square_name_bv(b0, b1);
}

/// The name `algebraic_from_index` gives a square is read back by `index_from_algebraic` as
/// that square: its bytes (ASCII, one per character) are a valid square name of that index.
pub proof fn lemma_index_name_roundtrip(index: u8)
    requires
        index < 64,
    ensures
        algebraic_index_ok(vstd::utf8::encode_utf8(square_name(index))),
        algebraic_index(vstd::utf8::encode_utf8(square_name(index))) == index,
{
    lemma_algebraic_roundtrip(index);
    let b0: u8 = (97 + index % 8) as u8;
    let b1: u8 = (49 + index / 8) as u8;
    let name = square_name(index);
    assert(vstd::utf8::is_ascii_chars(name));
    vstd::utf8::is_ascii_chars_encode_utf8(name);
    let bytes = vstd::utf8::encode_utf8(name);
    assert(bytes[0] == name[0] as u8 && bytes[1] == name[1] as u8);
    assert(bytes =~= seq![b0, b1]);
    lemma_square_name_index(seq![b0, b1]);
}

/// The set squares of `b` below `n` are set, below `n`, in strictly ascending order, and each
/// set square below `n` is among them.
proof fn lemma_squares_below_facts(b: u64, n: nat)
    requires
        n <= 64,
    ensures
        forall|i: int| 0 <= i < squares_below(b, n).len() ==> squares_below(b, n)[i] < n && bit(b, #[trigger] squares_below(b, n)[i]),
        forall|i: int, j: int| 0 <= i < j < squares_below(b, n).len() ==> squares_below(b, n)[i] < squares_below(b, n)[j],
        forall|t: u64| t < n && bit(b, t) ==> squares_below(b, n).contains(t),
    decreases n,
{
    if n > 0 {
        lemma_squares_below_facts(b, (n - 1) as nat);
        let prev = squares_below(b, (n - 1) as nat);
        if bit(b, (n - 1) as u64) {
            let cur = prev.push((n - 1) as u64);
            assert forall|t: u64| t < n && bit(b, t) implies cur.contains(t) by {
                if t == n - 1 {
                    assert(cur[prev.len() as int] == t);
                } else {
                    let k = choose|k: int| 0 <= k < prev.len() && prev[k] == t;
                    assert(cur[k] == t);
                }
            }
        }
    }
}

/// One name per set square: `algebraic_from_bitboard` gives as many names as the board has set
/// squares.
pub proof fn lemma_square_names_count(b: u64)
    ensures
        square_names(b).len() == popcount(b),
{
    lemma_squares_below_facts(b, 64);
    lemma_bits_seq_sorted(b);
    let x = squares_below(b, 64);
    let y = bits_seq(b);
    assert(x.no_duplicates()) by {
        assert forall|i: int, j: int| 0 <= i < x.len() && 0 <= j < x.len() && i != j implies x[i] != x[j] by {
            if i < j {
                assert(x[i] < x[j]);
            } else {
                assert(x[j] < x[i]);
            }
        }
    }
    assert(y.no_duplicates()) by {
        assert forall|i: int, j: int| 0 <= i < y.len() && 0 <= j < y.len() && i != j implies y[i] != y[j] by {
            if i < j {
                assert(y[i] < y[j]);
            } else {
                assert(y[j] < y[i]);
            }
        }
    }
    assert(x.to_set() =~= y.to_set()) by {
        assert forall|t: u64| x.to_set().contains(t) implies y.to_set().contains(t) by {
            let k = choose|k: int| 0 <= k < x.len() && x[k] == t;
            assert(bit(b, x[k]) && x[k] < 64);
        }
        assert forall|t: u64| y.to_set().contains(t) implies x.to_set().contains(t) by {
            let k = choose|k: int| 0 <= k < y.len() && y[k] == t;
            assert(bit(b, y[k]) && y[k] < 64);
        }
    }
    x.unique_seq_to_set();
    y.unique_seq_to_set();
}

/// A well-formed square name gives `8 * rank + file`, an index below 64.
pub proof fn lemma_square_name_index(b: Seq<u8>)
    requires
        is_square_name(b),
    ensures
        algebraic_index_ok(b),
        algebraic_index(b) == (b[1] - 49) * 8 + (b[0] - 97),
        0 <= algebraic_index(b) < 64,
{
    lemma_index_of_square_name_bv(b[0], b[1]);
}

/// The squares named in a list of names.
pub open spec fn named_squares(squares: Seq<&str>) -> Set<int> {
    Set::new(|t: int| exists|i: int| 0 <= i < squares.len() && algebraic_index(#[trigger] squares[i].spec_bytes()) == t)
}

/// A square is set in the bitboard of a list of names exactly when some name in the list names
/// it.
pub proof fn lemma_squares_bitboard_bits(squares: Seq<&str>, t: u64)
    requires
        all_squares_ok(squares),
        t < 64,
    ensures
        bit(squares_bitboard(squares), t) == named_squares(squares).contains(t as int),
    decreases squares.len(),
{
    if squares.len() == 0 {
        crate::bitboard::lemma_bit_zero(t);
    } else {
        let init = squares.drop_last();
        assert(all_squares_ok(init)) by {
            assert forall|i: int| 0 <= i < init.len() implies algebraic_index_ok(#[trigger] init[i].spec_bytes())
                && algebraic_index(init[i].spec_bytes()) < 64 by {
                assert(init[i] == squares[i]);
            }
        }
        lemma_squares_bitboard_bits(init, t);
        let last = squares.len() - 1;
        assert(algebraic_index_ok(squares[last].spec_bytes()));
        let j = algebraic_index(squares.last().spec_bytes()) as u64;
        crate::bitboard::lemma_bit_or(squares_bitboard(init), sq_bb(j), t);
        crate::bitboard::lemma_bit_single(j, t);
        if named_squares(squares).contains(t as int) {
            let i = choose|i: int| 0 <= i < squares.len() && algebraic_index(#[trigger] squares[i].spec_bytes()) == t;
            if i < last {
                assert(init[i] == squares[i]);
                assert(named_squares(init).contains(t as int));
            }
        }
        if named_squares(init).contains(t as int) {
            let i = choose|i: int| 0 <= i < init.len() && algebraic_index(#[trigger] init[i].spec_bytes()) == t;
            assert(init[i] == squares[i]);
            assert(named_squares(squares).contains(t as int));
        }
        if bit(sq_bb(j), t) {
            assert(algebraic_index(squares[last].spec_bytes()) == t);
            assert(named_squares(squares).contains(t as int));
        }
    }
}

/// Two lists naming the same squares give the same bitboard, whatever the order of the names and
/// however often a name is repeated.
pub proof fn lemma_squares_bitboard_same_squares(a: Seq<&str>, b: Seq<&str>)
    requires
        all_squares_ok(a),
        all_squares_ok(b),
        named_squares(a) == named_squares(b),
    ensures
        squares_bitboard(a) == squares_bitboard(b),
{
    assert forall|t: u64| t < 64 implies bit(squares_bitboard(a), t) == bit(squares_bitboard(b), t) by {
        lemma_squares_bitboard_bits(a, t);
        lemma_squares_bitboard_bits(b, t);
    }
    crate::bitboard::lemma_ext(squares_bitboard(a), squares_bitboard(b));
}

/// Reading back the names `algebraic_from_bitboard` gives a bitboard yields that bitboard.
pub proof fn lemma_names_roundtrip(b: u64, names: Seq<&str>)
    requires
        names.map_values(|s: &str| s@) == square_names(b),
    ensures
        all_squares_ok(names),
        squares_bitboard(names) == b,
{
    lemma_squares_below_facts(b, 64);
    let sb = squares_below(b, 64);
    assert(names.map_values(|s: &str| s@).len() == names.len());
    assert(square_names(b).len() == sb.len());
    assert forall|i: int| 0 <= i < names.len() implies names[i]@ == square_name(sb[i] as u8) by {
        assert(names.map_values(|s: &str| s@)[i] == names[i]@);
        assert(square_names(b)[i] == square_name(sb[i] as u8));
    }
    assert forall|i: int| 0 <= i < names.len() implies algebraic_index_ok(#[trigger] names[i].spec_bytes())
        && algebraic_index(names[i].spec_bytes()) == sb[i] as int by {
        assert(sb[i] < 64);
        lemma_index_name_roundtrip(sb[i] as u8);
    }
    assert(all_squares_ok(names));
    assert forall|t: u64| t < 64 implies bit(squares_bitboard(names), t) == bit(b, t) by {
        lemma_squares_bitboard_bits(names, t);
        if bit(b, t) {
            assert(sb.contains(t));
            let k = choose|k: int| 0 <= k < sb.len() && sb[k] == t;
            assert(algebraic_index(names[k].spec_bytes()) == t);
        }
        if named_squares(names).contains(t as int) {
            let i = choose|i: int| 0 <= i < names.len() && algebraic_index(#[trigger] names[i].spec_bytes()) == t;
            assert(bit(b, sb[i]));
        }
    }
    crate::bitboard::lemma_ext(squares_bitboard(names), b);
}

/// A name is written exactly as `algebraic_from_index` writes its square: two ASCII characters,
/// a file letter and a rank digit.
pub open spec fn is_plain_square_name(n: &str) -> bool {
    &&& n@.len() == 2
    &&& vstd::utf8::is_ascii_chars(n@)
    &&& is_square_name(n.spec_bytes())
}

/// A plain square name is the name of the square it reads as.
proof fn lemma_plain_name(n: &str)
    requires
        is_plain_square_name(n),
    ensures
        algebraic_index_ok(n.spec_bytes()),
        0 <= algebraic_index(n.spec_bytes()) < 64,
        square_name(algebraic_index(n.spec_bytes()) as u8) == n@,
{
    let b = n.spec_bytes();
    vstd::utf8::is_ascii_chars_encode_utf8(n@);
    lemma_square_name_index(b);
    let i = algebraic_index(b) as u8;
    lemma_name_of_index_bv(i);
    assert(b[0] == n@[0] as u8 && b[1] == n@[1] as u8);
    assert(i % 8 == b[0] - 97 && i / 8 == b[1] - 49);
    assert(square_name(i) =~= n@);
}

/// Names read into a bitboard and written back give the named squares once each, in ascending
/// order of square: the names written are those of the squares `bitboard_from_algebraic` reads,
/// each a named square, and each name written exactly as `algebraic_from_index` writes it comes
/// back unchanged.
pub proof fn lemma_names_bitboard_names(v: Seq<&str>)
    requires
        all_squares_ok(v),
    ensures
        ({
            let idx = squares_below(squares_bitboard(v), 64);
            &&& square_names(squares_bitboard(v)) == idx.map_values(|x: u64| square_name(x as u8))
            &&& forall|i: int, j: int| 0 <= i < j < idx.len() ==> idx[i] < idx[j]
            &&& forall|i: int| 0 <= i < idx.len() ==> named_squares(v).contains(#[trigger] idx[i] as int)
            &&& forall|t: u64| t < 64 && named_squares(v).contains(t as int) ==> idx.contains(t)
            &&& forall|k: int| 0 <= k < v.len() && is_plain_square_name(#[trigger] v[k])
                ==> square_names(squares_bitboard(v)).contains(v[k]@)
        }),
{
    let b = squares_bitboard(v);
    let idx = squares_below(b, 64);
    lemma_squares_below_facts(b, 64);
    assert forall|i: int| 0 <= i < idx.len() implies named_squares(v).contains(#[trigger] idx[i] as int) by {
        lemma_squares_bitboard_bits(v, idx[i]);
    }
    assert forall|t: u64| t < 64 && named_squares(v).contains(t as int) implies idx.contains(t) by {
        lemma_squares_bitboard_bits(v, t);
    }
    assert forall|k: int| 0 <= k < v.len() && is_plain_square_name(#[trigger] v[k]) implies square_names(b).contains(v[k]@) by {
        lemma_plain_name(v[k]);
        let t = algebraic_index(v[k].spec_bytes()) as u64;
        assert(named_squares(v).contains(t as int));
        lemma_squares_bitboard_bits(v, t);
        assert(idx.contains(t));
        let j = choose|j: int| 0 <= j < idx.len() && idx[j] == t;
        assert(square_names(b)[j] == square_name(t as u8));
    }
}

} // verus!
