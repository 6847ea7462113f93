use vstd::prelude::*;
use vstd::string::StringSliceAdditionalSpecFns;
use crate::bitboard::sq_bb;
use crate::constants::{START_POSITION, SINGLE_BITBOARDS};
use crate::position::{Position, empty_position};
use crate::position_helper::{algebraic_index, algebraic_index_ok};
use crate::game_move::GameMove;
use crate::move_maker::{MoveMaker, made_position, make_move_ok, lemma_unmake_after_make};

verus! {

/// Why a FEN string was refused.
#[derive(Clone, Copy, Debug, PartialEq, Eq, Structural)]
pub enum FenError {
    /// Not six space-separated fields, or a character the piece placement does not allow.
    InvalidFen,
    /// A castling field other than `-` with a character other than `KQkq`.
    InvalidCastlingSide,
}

// ---------------------------------------------------------------------------
// Fields: a FEN string is six fields separated by single spaces.
// ---------------------------------------------------------------------------

/// The indices below `n` of the spaces in `s`, in ascending order.
pub open spec fn space_positions(s: Seq<u8>, n: nat) -> Seq<int>
    decreases n,
{
    if n == 0 {
        Seq::empty()
    } else if s[n - 1] == 32u8 {
        space_positions(s, (n - 1) as nat).push(n - 1)
    } else {
        space_positions(s, (n - 1) as nat)
    }
}

/// The spaces of `s`.
pub open spec fn spaces_of(s: Seq<u8>) -> Seq<int> {
    space_positions(s, s.len())
}

/// The number of fields: one more than the number of spaces.
pub open spec fn field_count(s: Seq<u8>) -> nat {
    spaces_of(s).len() + 1
}

/// The `k`-th field: the bytes between the `k`-th space (or the start) and the next space
/// (or the end).
pub open spec fn field(s: Seq<u8>, k: int) -> Seq<u8> {
    let sp = spaces_of(s);
    let start = if k == 0 { 0 } else { sp[k - 1] + 1 };
    let end = if k < sp.len() { sp[k] } else { s.len() as int };
    s.subrange(start, end)
}

// ---------------------------------------------------------------------------
// Piece placement
// ---------------------------------------------------------------------------

/// Rotation of a bitboard towards higher squares by `k` (0 < k < 64).
pub open spec fn rotl(x: u64, k: u64) -> u64 {
    (x << k) | (x >> ((64 - k) as u64))
}

/// Rotation of a bitboard towards lower squares by `k` (0 < k < 64).
pub open spec fn rotr(x: u64, k: u64) -> u64 {
    (x >> k) | (x << ((64 - k) as u64))
}

/// The position after placing the piece named by `c` on the square `cur`; `/` and the digits
/// `1`..`8` place nothing; any other character is refused.
pub open spec fn place_piece(p: Position, cur: u64, c: u8) -> Option<Position> {
    if c == 80u8 {
        Some(Position { wp: p.wp | cur, ..p })
    } else if c == 78u8 {
        Some(Position { wn: p.wn | cur, ..p })
    } else if c == 66u8 {
        Some(Position { wb: p.wb | cur, ..p })
    } else if c == 82u8 {
        Some(Position { wr: p.wr | cur, ..p })
    } else if c == 81u8 {
        Some(Position { wq: p.wq | cur, ..p })
    } else if c == 75u8 {
        Some(Position { wk: p.wk | cur, ..p })
    } else if c == 112u8 {
        Some(Position { bp: p.bp | cur, ..p })
    } else if c == 110u8 {
        Some(Position { bn: p.bn | cur, ..p })
    } else if c == 98u8 {
        Some(Position { bb: p.bb | cur, ..p })
    } else if c == 114u8 {
        Some(Position { br: p.br | cur, ..p })
    } else if c == 113u8 {
        Some(Position { bq: p.bq | cur, ..p })
    } else if c == 107u8 {
        Some(Position { bk: p.bk | cur, ..p })
    } else if c == 47u8 || (49u8 <= c && c <= 56u8) {
        Some(p)
    } else {
        None
    }
}

/// The square after the character `c`: `/` goes down a rank to the a-file (a rotation by 16
/// after the rank was walked), a digit skips that many squares, a piece moves one square on.
pub open spec fn next_square(cur: u64, c: u8) -> u64 {
    if c == 47u8 {
        rotr(cur, 16)
    } else if 49u8 <= c && c <= 56u8 {
        rotl(cur, (c - 48) as u64)
    } else if c > 56u8 {
        rotl(cur, 1)
    } else {
        cur
    }
}

/// The position after placing the pieces of `s`, the first on the square `cur`; `None` when a
/// character is refused.
pub open spec fn place_pieces(p: Position, cur: u64, s: Seq<u8>) -> Option<Position>
    decreases s.len(),
{
    if s.len() == 0 {
        Some(p)
    } else {
        match place_piece(p, cur, s[0]) {
            Some(p1) => place_pieces(p1, next_square(cur, s[0]), s.drop_first()),
            None => None,
        }
    }
}

/// The first square of the placement: a8.
pub open spec fn first_square() -> u64 {
    0x0100000000000000u64
}

// ---------------------------------------------------------------------------
// Counters: an optional `+` and decimal digits, as the standard parsing of unsigned integers.
// ---------------------------------------------------------------------------

/// Every byte is a decimal digit.
pub open spec fn all_digits(s: Seq<u8>) -> bool {
    forall|i: int| 0 <= i < s.len() ==> 48u8 <= #[trigger] s[i] <= 57u8
}

/// The value of a string of decimal digits.
pub open spec fn digits_value(s: Seq<u8>) -> nat
    decreases s.len(),
{
    if s.len() == 0 {
        0
    } else {
        digits_value(s.drop_last()) * 10 + (s.last() - 48) as nat
    }
}

/// The digits of an unsigned number: without a leading `+`.
pub open spec fn unsigned_digits(s: Seq<u8>) -> Seq<u8> {
    if s.len() > 0 && s[0] == 43u8 {
        s.drop_first()
    } else {
        s
    }
}

/// `s` is an unsigned number of at most `max`.
pub open spec fn parses_unsigned(s: Seq<u8>, max: nat) -> bool {
    let d = unsigned_digits(s);
    &&& d.len() > 0
    &&& all_digits(d)
    &&& digits_value(d) <= max
}

/// The value of the unsigned number `s`.
pub open spec fn unsigned_value(s: Seq<u8>) -> nat {
    digits_value(unsigned_digits(s))
}

// ---------------------------------------------------------------------------
// Castling rights
// ---------------------------------------------------------------------------

/// The castling squares of the characters of `s` added to `acc`: K g1, Q c1, k g8, q c8;
/// `None` for any other character.
pub open spec fn castling_squares(acc: u64, s: Seq<u8>) -> Option<u64>
    decreases s.len(),
{
    if s.len() == 0 {
        Some(acc)
    } else if s[0] == 75u8 {
        castling_squares(acc | SINGLE_BITBOARDS[6], s.drop_first())
    } else if s[0] == 81u8 {
        castling_squares(acc | SINGLE_BITBOARDS[2], s.drop_first())
    } else if s[0] == 107u8 {
        castling_squares(acc | SINGLE_BITBOARDS[62], s.drop_first())
    } else if s[0] == 113u8 {
        castling_squares(acc | SINGLE_BITBOARDS[58], s.drop_first())
    } else {
        None
    }
}

/// The castling rights of a castling field: none for `-`.
pub open spec fn castling_field(s: Seq<u8>) -> Option<u64> {
    if s == seq![45u8] {
        Some(0)
    } else {
        castling_squares(0, s)
    }
}

// ---------------------------------------------------------------------------
// The whole string
// ---------------------------------------------------------------------------

/// The bytes of the FEN string, the starting position by default.
pub open spec fn fen_bytes(fen_str: Option<&str>) -> Seq<u8> {
    match fen_str {
        Some(s) => s.spec_bytes(),
        None => START_POSITION.spec_bytes(),
    }
}

/// The en passant square of a field of two bytes; none otherwise.
pub open spec fn en_passant_field(s: Seq<u8>) -> u64 {
    if s.len() == 2 {
        sq_bb(algebraic_index(s) as u64)
    } else {
        0
    }
}

/// Black is to move when the side field reads `b` or `B`.
pub open spec fn white_field(s: Seq<u8>) -> bool {
    !(s == seq![98u8] || s == seq![66u8])
}

/// The string can be read without a failure of the square or counter arithmetic: a two-byte en
/// passant field names a square, the half-move counter fits a `u8` and the move number a `u16`.
pub open spec fn fen_loadable(s: Seq<u8>) -> bool {
    field_count(s) == 6 && place_pieces(empty_position(), first_square(), field(s, 0)) is Some ==> {
        &&& field(s, 3).len() == 2 ==> algebraic_index_ok(field(s, 3)) && algebraic_index(field(s, 3)) < 64
        &&& parses_unsigned(field(s, 4), 255)
        &&& parses_unsigned(field(s, 5), 65535)
    }
}

/// The position a FEN string describes, or why it is refused.
pub open spec fn fen_result(s: Seq<u8>) -> Result<Position, FenError> {
    if field_count(s) != 6 {
        Err(FenError::InvalidFen)
    } else {
        match place_pieces(empty_position(), first_square(), field(s, 0)) {
            None => Err(FenError::InvalidFen),
            Some(placed) => match castling_field(field(s, 2)) {
                None => Err(FenError::InvalidCastlingSide),
                Some(rights) => Ok(
                    Position {
                        white_to_move: white_field(field(s, 1)),
                        en_passant_sq: en_passant_field(field(s, 3)),
                        fifty_move_count: unsigned_value(field(s, 4)) as u8,
                        move_number: unsigned_value(field(s, 5)) as u16,
                        castling_rights: rights,
                        ..placed
                    }.with_occupancy(),
                ),
            },
        }
    }
}

/// A character a placement field may hold: a piece letter, `/` or a digit `1`..`8`.
pub open spec fn placement_char(c: u8) -> bool {
    c == 80u8 || c == 78u8 || c == 66u8 || c == 82u8 || c == 81u8 || c == 75u8 || c == 112u8 || c == 110u8
        || c == 98u8 || c == 114u8 || c == 113u8 || c == 107u8 || c == 47u8 || (49u8 <= c && c <= 56u8)
}

/// A character a castling field may hold: `K`, `Q`, `k` or `q`.
pub open spec fn castling_char(c: u8) -> bool {
    c == 75u8 || c == 81u8 || c == 107u8 || c == 113u8
}

proof fn lemma_place_refuses(p: Position, cur: u64, s: Seq<u8>, i: int)
    requires
        0 <= i < s.len(),
        !placement_char(s[i]),
    ensures
        place_pieces(p, cur, s) is None,
    decreases s.len(),
{
    if i > 0 {
        if let Some(p1) = place_piece(p, cur, s[0]) {
            assert(s.drop_first()[i - 1] == s[i]);
            lemma_place_refuses(p1, next_square(cur, s[0]), s.drop_first(), i - 1);
        }
    }
}

proof fn lemma_castling_refuses(acc: u64, s: Seq<u8>, i: int)
    requires
        0 <= i < s.len(),
        !castling_char(s[i]),
    ensures
        castling_squares(acc, s) is None,
    decreases s.len(),
{
    if i > 0 && castling_char(s[0]) {
        assert(s.drop_first()[i - 1] == s[i]);
        if s[0] == 75u8 {
            lemma_castling_refuses(acc | SINGLE_BITBOARDS[6], s.drop_first(), i - 1);
        } else if s[0] == 81u8 {
            lemma_castling_refuses(acc | SINGLE_BITBOARDS[2], s.drop_first(), i - 1);
        } else if s[0] == 107u8 {
            lemma_castling_refuses(acc | SINGLE_BITBOARDS[62], s.drop_first(), i - 1);
        } else {
            lemma_castling_refuses(acc | SINGLE_BITBOARDS[58], s.drop_first(), i - 1);
        }
    }
}

/// A FEN string is refused, and can be handed to `from_fen`, when it does not have six fields or
/// its placement holds a character other than a piece letter, `/` or `1`..`8`; it is refused too
/// when its castling field is not `-` and holds a character other than `K`, `Q`, `k`, `q`.
pub proof fn lemma_fen_refused(s: Seq<u8>, i: int)
    ensures
        field_count(s) != 6 ==> fen_result(s) is Err && fen_loadable(s),
        (0 <= i < field(s, 0).len() && !placement_char(field(s, 0)[i])) ==> fen_result(s) is Err && fen_loadable(s),
        (field(s, 2) != seq![45u8] && 0 <= i < field(s, 2).len() && !castling_char(field(s, 2)[i]))
            ==> fen_result(s) is Err,
{
    if 0 <= i < field(s, 0).len() && !placement_char(field(s, 0)[i]) {
        lemma_place_refuses(empty_position(), first_square(), field(s, 0), i);
    }
    if field(s, 2) != seq![45u8] && 0 <= i < field(s, 2).len() && !castling_char(field(s, 2)[i]) {
        lemma_castling_refuses(0, field(s, 2), i);
    }
}

/// A position read from FEN has occupancy fields that agree with its pieces.
pub proof fn lemma_fen_position_consistent(s: Seq<u8>)
    requires
        fen_result(s) is Ok,
    ensures
        (fen_result(s)->Ok_0).occupancy_consistent(),
{
}

/// A move made in a position read from FEN and taken back with the state saved when it was
/// made gives back that very position.
pub proof fn lemma_fen_unmake_after_make(s: Seq<u8>, m: GameMove, masks: [u64; 64])
    requires
        fen_result(s) is Ok,
        make_move_ok(fen_result(s)->Ok_0, m),
    ensures
        MoveMaker::saved_from(fen_result(s)->Ok_0).unmade_position(
            made_position(fen_result(s)->Ok_0, m, masks),
        ) == fen_result(s)->Ok_0,
{
    lemma_fen_position_consistent(s);
    lemma_unmake_after_make(fen_result(s)->Ok_0, m, masks);
}

// ---------------------------------------------------------------------------
// Reading
// ---------------------------------------------------------------------------

/// Placing pieces changes only the piece bitboards.
proof fn lemma_place_keeps_en_passant(p: Position, cur: u64, s: Seq<u8>)
    requires
        place_pieces(p, cur, s) is Some,
    ensures
        place_pieces(p, cur, s).unwrap().en_passant_sq == p.en_passant_sq,
    decreases s.len(),
{
    if s.len() > 0 {
        lemma_place_keeps_en_passant(place_piece(p, cur, s[0]).unwrap(), next_square(cur, s[0]), s.drop_first());
    }
}

proof fn lemma_prefix_value(s: Seq<u8>, k: int)
    requires
        0 <= k <= s.len(),
    ensures
        digits_value(s.take(k)) <= digits_value(s),
    decreases s.len(),
{
    if k < s.len() {
        assert(s.drop_last().take(k) =~= s.take(k));
        lemma_prefix_value(s.drop_last(), k);
    } else {
        assert(s.take(k) =~= s);
    }
}

/// The unsigned number in `bytes[start..end]`.
fn parse_unsigned(bytes: &[u8], start: usize, end: usize, max: u64) -> (r: u64)
    requires
        start <= end <= bytes@.len(),
        max <= 65535,
        parses_unsigned(bytes@.subrange(start as int, end as int), max as nat),
    ensures
        r == unsigned_value(bytes@.subrange(start as int, end as int)),
{
    let ghost s = bytes@.subrange(start as int, end as int);
    let mut i = start;
    if bytes[start] == 43u8 {
        i = start + 1;
    }
    let ghost d = unsigned_digits(s);
    proof {
        assert(d =~= bytes@.subrange(i as int, end as int));
    }
    let mut acc: u64 = 0;
    while i < end
        invariant
            start <= i <= end <= bytes@.len(),
            d == bytes@.subrange(end - d.len(), end as int),
            start <= end - d.len() <= i,
            all_digits(d),
            digits_value(d) <= max,
            max <= 65535,
            acc == digits_value(d.take(i - (end - d.len()))),
        decreases end - i,
    {
        let ghost k = i - (end - d.len());
        proof {
            assert(d.take(k + 1).drop_last() =~= d.take(k));
            let base = end - d.len();
            assert(bytes@.subrange(base, end as int)[k] == bytes@[base + k]);
            assert(d[k] == bytes@[i as int]);
            lemma_prefix_value(d, k + 1);
        }
        acc = acc * 10 + (bytes[i] - 48) as u64;
        i = i + 1;
    }
    proof {
        assert(d.take(d.len() as int) =~= d);
    }
    acc
}

impl Position {
    /// Places the pieces of `bytes[start..end]` on the position, from a8 along each rank and
    /// down the ranks; false (with the position partly filled) on a character the placement
    /// does not allow.
    fn place_fen_pieces(&mut self, bytes: &[u8], start: usize, end: usize) -> (ok: bool)
        requires
            start <= end <= bytes@.len(),
        ensures
            ok == place_pieces(*old(self), first_square(), bytes@.subrange(start as int, end as int)) is Some,
            ok ==> Some(*final(self)) == place_pieces(
                *old(self),
                first_square(),
                bytes@.subrange(start as int, end as int),
            ),
    {
        let ghost all = bytes@.subrange(start as int, end as int);
        let ghost p0 = *self;
        let mut cur_bit: u64 = 0x0100000000000000u64;
        let mut j = start;
        while j < end
            invariant
                start <= j <= end <= bytes@.len(),
                all == bytes@.subrange(start as int, end as int),
                p0 == *old(self),
                place_pieces(*self, cur_bit, bytes@.subrange(j as int, end as int)) == place_pieces(
                    p0,
                    first_square(),
                    all,
                ),
            decreases end - j,
        {
            let c = bytes[j];
            let ghost before = *self;
            let ghost cur0 = cur_bit;
            proof {
                assert(bytes@.subrange(j as int, end as int)[0] == c);
                assert(bytes@.subrange(j as int, end as int).drop_first() =~= bytes@.subrange(
                    j + 1,
                    end as int,
                ));
            }
            if c == 80u8 {
                self.wp = self.wp | cur_bit;
            } else if c == 78u8 {
                self.wn = self.wn | cur_bit;
            } else if c == 66u8 {
                self.wb = self.wb | cur_bit;
            } else if c == 82u8 {
                self.wr = self.wr | cur_bit;
            } else if c == 81u8 {
                self.wq = self.wq | cur_bit;
            } else if c == 75u8 {
                self.wk = self.wk | cur_bit;
            } else if c == 112u8 {
                self.bp = self.bp | cur_bit;
            } else if c == 110u8 {
                self.bn = self.bn | cur_bit;
            } else if c == 98u8 {
                self.bb = self.bb | cur_bit;
            } else if c == 114u8 {
                self.br = self.br | cur_bit;
            } else if c == 113u8 {
                self.bq = self.bq | cur_bit;
            } else if c == 107u8 {
                self.bk = self.bk | cur_bit;
            } else if c == 47u8 {
                cur_bit = (cur_bit >> 16u64) | (cur_bit << 48u64);
            } else if 49u8 <= c && c <= 56u8 {
                let k = (c - 48) as u64;
                cur_bit = (cur_bit << k) | (cur_bit >> (64 - k));
            } else {
                proof {
                    assert(place_piece(*self, cur_bit, c) is None);
                    assert(place_pieces(*self, cur_bit, bytes@.subrange(j as int, end as int)) is None);
                }
                return false;
            }
            if c > 56u8 {
                cur_bit = (cur_bit << 1u64) | (cur_bit >> 63u64);
            }
            proof {
                assert(place_piece(before, cur0, c) == Some(*self));
                assert(next_square(cur0, c) == cur_bit);
            }
            j = j + 1;
        }
        proof {
            assert(bytes@.subrange(end as int, end as int) =~= Seq::<u8>::empty());
        }
        true
    }
}

/// The castling rights of the castling field `bytes[start..end]`.
fn read_castling_rights(bytes: &[u8], start: usize, end: usize) -> (r: Option<u64>)
    requires
        start <= end <= bytes@.len(),
    ensures
        r == castling_field(bytes@.subrange(start as int, end as int)),
{
    let ghost all = bytes@.subrange(start as int, end as int);
    if end - start == 1 && bytes[start] == 45u8 {
        proof {
            assert(all =~= seq![45u8]);
        }
        return Some(0);
    }
    proof {
        if all == seq![45u8] {
            assert(all[0] == bytes@[start as int]);
        }
    }
    let mut castling_rights: u64 = 0;
    let mut j = start;
    while j < end
        invariant
            start <= j <= end <= bytes@.len(),
            all == bytes@.subrange(start as int, end as int),
            all != seq![45u8],
            castling_squares(castling_rights, bytes@.subrange(j as int, end as int)) == castling_squares(0, all),
        decreases end - j,
    {
        let c = bytes[j];
        proof {
            assert(bytes@.subrange(j as int, end as int)[0] == c);
            assert(bytes@.subrange(j as int, end as int).drop_first() =~= bytes@.subrange(j + 1, end as int));
        }
        if c == 75u8 {
            castling_rights = castling_rights | SINGLE_BITBOARDS[6];
        } else if c == 81u8 {
            castling_rights = castling_rights | SINGLE_BITBOARDS[2];
        } else if c == 107u8 {
            castling_rights = castling_rights | SINGLE_BITBOARDS[62];
        } else if c == 113u8 {
            castling_rights = castling_rights | SINGLE_BITBOARDS[58];
        } else {
            proof {
                assert(castling_squares(castling_rights, bytes@.subrange(j as int, end as int)) is None);
            }
            return None;
        }
        j = j + 1;
    }
    proof {
        assert(bytes@.subrange(end as int, end as int) =~= Seq::<u8>::empty());
    }
    Some(castling_rights)
}

/// The indices of the spaces of `bytes`, in ascending order.
fn space_indices(bytes: &[u8]) -> (r: Vec<usize>)
    ensures
        r@.len() == spaces_of(bytes@).len(),
        forall|k: int| 0 <= k < r@.len() ==> r@[k] as int == #[trigger] spaces_of(bytes@)[k],
{
    let mut r: Vec<usize> = Vec::new();
    let mut i: usize = 0;
    while i < bytes.len()
        invariant
            i <= bytes@.len(),
            r@.len() == space_positions(bytes@, i as nat).len(),
            forall|k: int| 0 <= k < r@.len() ==> r@[k] as int == #[trigger] space_positions(bytes@, i as nat)[k],
        decreases bytes@.len() - i,
    {
        if bytes[i] == 32u8 {
            r.push(i);
        }
        i = i + 1;
    }
    r
}

/// Space positions are increasing and lie within the string.
proof fn lemma_space_positions(s: Seq<u8>, n: nat)
    requires
        n <= s.len(),
    ensures
        forall|k: int| 0 <= k < space_positions(s, n).len() ==> 0 <= #[trigger] space_positions(s, n)[k] < n
            && s[space_positions(s, n)[k]] == 32u8,
        forall|k: int, l: int| 0 <= k < l < space_positions(s, n).len()
            ==> #[trigger] space_positions(s, n)[k] < #[trigger] space_positions(s, n)[l],
    decreases n,
{
    if n > 0 {
        lemma_space_positions(s, (n - 1) as nat);
        let prev = space_positions(s, (n - 1) as nat);
        if s[n - 1] == 32u8 {
            assert(space_positions(s, n) == prev.push(n - 1));
        } else {
            assert(space_positions(s, n) == prev);
        }
    }
}

impl Position {
    /// Reads a position from a FEN string (the starting position when none is given): the piece
    /// placement from a8, the side to move, castling rights, en passant square, half-move
    /// counter and move number; the occupancy is computed from the pieces.
    pub fn from_fen(fen_str: Option<&str>) -> (r: Result<Position, FenError>)
        requires
            fen_loadable(fen_bytes(fen_str)),
        ensures
            r == fen_result(fen_bytes(fen_str)),
    {
        // Default to starting board position
        let pos_str: &str = match fen_str {
            Some(s) => s,
            None => START_POSITION,
        };
        let bytes = pos_str.as_bytes();
        let ghost s = bytes@;
        let spaces = space_indices(bytes);
        if spaces.len() != 5 {
            return Err(FenError::InvalidFen);
        }
        proof {
            lemma_space_positions(s, s.len());
        }
        let e0 = spaces[0];
        let e1 = spaces[1];
        let e2 = spaces[2];
        let e3 = spaces[3];
        let e4 = spaces[4];
        let n = bytes.len();
        proof {
            assert(spaces_of(s)[0] < spaces_of(s)[1]);
            assert(spaces_of(s)[1] < spaces_of(s)[2]);
            assert(spaces_of(s)[2] < spaces_of(s)[3]);
            assert(spaces_of(s)[3] < spaces_of(s)[4]);
            assert(field(s, 0) == s.subrange(0, e0 as int));
            assert(field(s, 1) == s.subrange(e0 + 1, e1 as int));
            assert(field(s, 2) == s.subrange(e1 + 1, e2 as int));
            assert(field(s, 3) == s.subrange(e2 + 1, e3 as int));
            assert(field(s, 4) == s.subrange(e3 + 1, e4 as int));
            assert(field(s, 5) == s.subrange(e4 + 1, n as int));
        }
        let mut position = Position::default();
        // Setup bitboards
        if !position.place_fen_pieces(bytes, 0, e0) {
            return Err(FenError::InvalidFen);
        }
        // Set position properties
        let side_len = e1 - (e0 + 1);
        position.white_to_move = !(side_len == 1 && (bytes[e0 + 1] == 98u8 || bytes[e0 + 1] == 66u8));
        proof {
            let f1 = field(s, 1);
            assert(f1 == s.subrange(e0 + 1, e1 as int));
            assert(bytes@ == s);
            if f1 == seq![98u8] || f1 == seq![66u8] {
                assert(f1.len() == 1);
                assert(f1[0] == s[e0 + 1]);
                assert(f1[0] == bytes@[e0 + 1]);
            }
            if side_len == 1 {
                assert(f1 =~= seq![bytes@[e0 + 1]]);
            }
        }
        if e3 - (e2 + 1) == 2 {
            let b0 = bytes[e2 + 1];
            let b1 = bytes[e2 + 2];
            proof {
                assert(field(s, 3)[0] == b0 && field(s, 3)[1] == b1);
            }
            position.en_passant_sq = 1u64 << ((((b1 - 49) << 3) + (b0 - 97)) as u64);
        }
        position.fifty_move_count = parse_unsigned(bytes, e3 + 1, e4, 255) as u8;
        position.move_number = parse_unsigned(bytes, e4 + 1, n, 65535) as u16;
        // Castling rights
        match read_castling_rights(bytes, e1 + 1, e2) {
            Some(rights) => {
                position.castling_rights = rights;
            },
            None => {
                return Err(FenError::InvalidCastlingSide);
            },
        }
        proof {
            let placed = place_pieces(empty_position(), first_square(), field(s, 0)).unwrap();
            lemma_place_keeps_en_passant(empty_position(), first_square(), field(s, 0));
            assert(position.white_to_move == white_field(field(s, 1)));
            assert(position.en_passant_sq == en_passant_field(field(s, 3)));
            assert(position.fifty_move_count == unsigned_value(field(s, 4)) as u8);
            assert(position.move_number == unsigned_value(field(s, 5)) as u16);
            assert(position.wp == placed.wp && position.bk == placed.bk);
        }
        // Set occupancies
        position.update_occupancy();
        Ok(position)
    }
}

/// Whether `bytes[start..end]` is an unsigned number of at most `max`.
fn check_unsigned(bytes: &[u8], start: usize, end: usize, max: u64) -> (r: bool)
    requires
        start <= end <= bytes@.len(),
        max <= 65535,
    ensures
        r == parses_unsigned(bytes@.subrange(start as int, end as int), max as nat),
{
    let ghost s = bytes@.subrange(start as int, end as int);
    let mut i = start;
    if start < end && bytes[start] == 43u8 {
        i = start + 1;
    }
    let ghost d = unsigned_digits(s);
    proof {
        assert(d =~= bytes@.subrange(i as int, end as int));
    }
    if i == end {
        return false;
    }
    let mut acc: u64 = 0;
    while i < end
        invariant
            start <= i <= end <= bytes@.len(),
            d == bytes@.subrange(end - d.len(), end as int),
            start <= end - d.len() <= i,
            d.len() > 0,
            d == unsigned_digits(bytes@.subrange(start as int, end as int)),
            max <= 65535,
            all_digits(d.take(i - (end - d.len()))),
            acc == digits_value(d.take(i - (end - d.len()))),
            acc <= max,
        decreases end - i,
    {
        let ghost k = i - (end - d.len());
        proof {
            let base = end - d.len();
            assert(bytes@.subrange(base, end as int)[k] == bytes@[base + k]);
            assert(d.take(k + 1).drop_last() =~= d.take(k));
            assert(d.take(k + 1).last() == d[k]);
        }
        let c = bytes[i];
        if c < 48u8 || c > 57u8 {
            proof {
                assert(d[k] == c);
            }
            return false;
        }
        acc = acc * 10 + (c - 48) as u64;
        if acc > max {
            proof {
                lemma_prefix_value(d, k + 1);
            }
            return false;
        }
        i = i + 1;
    }
    proof {
        assert(d.take(d.len() as int) =~= d);
    }
    true
}

impl Position {
    /// Whether `from_fen` can read the string (the starting position when none is given)
    /// without a failure of its square or counter arithmetic.
    pub fn fen_loadable_check(fen_str: Option<&str>) -> (r: bool)
        ensures
            r == fen_loadable(fen_bytes(fen_str)),
    {
        let pos_str: &str = match fen_str {
            Some(s) => s,
            None => START_POSITION,
        };
        let bytes = pos_str.as_bytes();
        let ghost s = bytes@;
        let spaces = space_indices(bytes);
        if spaces.len() != 5 {
            return true;
        }
        proof {
            lemma_space_positions(s, s.len());
        }
        let e0 = spaces[0];
        let e2 = spaces[2];
        let e3 = spaces[3];
        let e4 = spaces[4];
        let n = bytes.len();
        proof {
            assert(spaces_of(s)[0] < spaces_of(s)[1]);
            assert(spaces_of(s)[1] < spaces_of(s)[2]);
            assert(spaces_of(s)[2] < spaces_of(s)[3]);
            assert(spaces_of(s)[3] < spaces_of(s)[4]);
            assert(field(s, 0) == s.subrange(0, e0 as int));
            assert(field(s, 3) == s.subrange(e2 + 1, e3 as int));
            assert(field(s, 4) == s.subrange(e3 + 1, e4 as int));
            assert(field(s, 5) == s.subrange(e4 + 1, n as int));
        }
        let mut scratch = Position::default();
        if !scratch.place_fen_pieces(bytes, 0, e0) {
            return true;
        }
        let en_passant_ok = if e3 - (e2 + 1) == 2 {
            let b0 = bytes[e2 + 1];
            let b1 = bytes[e2 + 2];
            proof {
                assert(field(s, 3)[0] == b0 && field(s, 3)[1] == b1);
            }
            b1 >= 49 && b0 >= 97 && ((b1 - 49) << 3) as u16 + ((b0 - 97) as u16) < 64
        } else {
            true
        };
        en_passant_ok && check_unsigned(bytes, e3 + 1, e4, 255) && check_unsigned(bytes, e4 + 1, n, 65535)
    }
}

} // verus!
