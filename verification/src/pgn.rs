use vstd::prelude::*;
use vstd::string::StringSliceAdditionalSpecFns;
use std::collections::VecDeque;
use crate::fen::{fen_bytes, fen_loadable, fen_result};
use vstd::utf8::encode_utf8;
use crate::game_move::{GameMove, extended_san, move_key, san_chars};
use crate::game_move_list::{GameMoveList, MAX_MOVES_PER_POSITION};
use crate::move_maker::{MoveMaker, made_position, make_move_ok};
use crate::position::open_pins;
use crate::position_analyzer::{PositionAnalyzer, analysable, generated_moves, prepared};
use crate::san::partial_san_search;
use crate::position::Position;
use crate::position_helper::string_push;
use crate::san::chars_of;

verus! {

/// Reads training positions from the games of a PGN file: the game being played through, the
/// legal moves of its position and the move played next.
pub struct PGNReader {
    pub pgn_game_position: Position,
    pub position_moves: GameMoveList,
    pub pgn_next_move_played: GameMove,
    pub pgn_game_moves: VecDeque<String>,
    pub pgn_game_result: i8,
    pub move_maker: MoveMaker,
    pub white_min_elo: bool,
    pub black_min_elo: bool,
}

// ---------------------------------------------------------------------------
// Characters and bytes
// ---------------------------------------------------------------------------

/// The number of bytes of the UTF-8 encoding of `c`.
pub open spec fn char_width(c: char) -> nat {
    if (c as u32) < 0x80 {
        1
    } else if (c as u32) < 0x800 {
        2
    } else if (c as u32) < 0x10000 {
        3
    } else {
        4
    }
}

/// The number of bytes of the UTF-8 encoding of `s`.
pub open spec fn utf8_len(s: Seq<char>) -> nat
    decreases s.len(),
{
    if s.len() == 0 {
        0
    } else {
        utf8_len(s.drop_last()) + char_width(s.last())
    }
}

/// `c` is an ASCII character.
pub open spec fn is_ascii_char(c: char) -> bool {
    (c as u32) < 0x80
}

/// `c` has the Unicode White_Space property.
pub open spec fn is_white_space(c: char) -> bool {
    let u = c as u32;
    (0x09 <= u <= 0x0d) || u == 0x20 || u == 0x85 || u == 0xa0 || u == 0x1680 || (0x2000 <= u
        <= 0x200a) || u == 0x2028 || u == 0x2029 || u == 0x202f || u == 0x205f || u == 0x3000
}

/// The string without its leading and trailing white space.
pub open spec fn trim_start(s: Seq<char>) -> Seq<char>
    decreases s.len(),
{
    if s.len() > 0 && is_white_space(s[0]) {
        trim_start(s.drop_first())
    } else {
        s
    }
}

/// The string without its trailing white space.
pub open spec fn trim_end(s: Seq<char>) -> Seq<char>
    decreases s.len(),
{
    if s.len() > 0 && is_white_space(s.last()) {
        trim_end(s.drop_last())
    } else {
        s
    }
}

/// The string without leading and trailing white space.
pub open spec fn trimmed(s: Seq<char>) -> Seq<char> {
    trim_end(trim_start(s))
}

/// The pieces of `s` between single spaces (empty pieces for adjacent spaces).
pub open spec fn split_at_spaces(s: Seq<char>) -> Seq<Seq<char>>
    decreases s.len(),
{
    if s.len() == 0 {
        seq![Seq::empty()]
    } else {
        let r = split_at_spaces(s.drop_last());
        if s.last() == ' ' {
            r.push(Seq::empty())
        } else {
            r.update(r.len() - 1, r.last().push(s.last()))
        }
    }
}

proof fn lemma_split_nonempty(s: Seq<char>)
    ensures
        split_at_spaces(s).len() >= 1,
    decreases s.len(),
{
    if s.len() > 0 {
        lemma_split_nonempty(s.drop_last());
    }
}

/// The characters `chars[from..to]` as a string.
pub(crate) fn string_of(chars: &Vec<char>, from: usize, to: usize) -> (s: String)
    requires
        from <= to <= chars@.len(),
    ensures
        s@ == chars@.subrange(from as int, to as int),
{
    let mut s = String::new();
    let mut i = from;
    while i < to
        invariant
            from <= i <= to <= chars@.len(),
            s@ == chars@.subrange(from as int, i as int),
        decreases to - i,
    {
        string_push(&mut s, chars[i]);
        proof {
            assert(chars@.subrange(from as int, i + 1) =~= chars@.subrange(from as int, i as int).push(
                chars@[i as int],
            ));
        }
        i = i + 1;
    }
    s
}

/// Whether `c` is an ASCII character.
fn ascii(c: char) -> (r: bool)
    ensures
        r == is_ascii_char(c),
{
    (c as u32) < 0x80
}

/// Whether `c` has the Unicode White_Space property.
pub(crate) fn white_space(c: char) -> (r: bool)
    ensures
        r == is_white_space(c),
{
    let u = c as u32;
    (0x09 <= u && u <= 0x0d) || u == 0x20 || u == 0x85 || u == 0xa0 || u == 0x1680 || (0x2000 <= u
        && u <= 0x200a) || u == 0x2028 || u == 0x2029 || u == 0x202f || u == 0x205f || u == 0x3000
}

/// The number of bytes of `c` in UTF-8.
fn width(c: char) -> (r: usize)
    ensures
        r == char_width(c),
{
    let u = c as u32;
    if u < 0x80 {
        1
    } else if u < 0x800 {
        2
    } else if u < 0x10000 {
        3
    } else {
        4
    }
}

// ---------------------------------------------------------------------------
// Header records: [Key "Value"]
// ---------------------------------------------------------------------------

/// Why a PGN record was refused.
#[derive(Clone, Copy, Debug, PartialEq, Eq, Structural)]
pub enum PgnError {
    /// A header record without a space between its key and value.
    InvalidHeaderRecord,
}

/// The scan for the space between key and value, from character `j` on, of a record of
/// `n_bytes` bytes whose characters before `j` are ASCII (so that characters and bytes are
/// counted alike): `Some(Some(j))` for the first space, `Some(None)` when none comes before the
/// last byte, `None` when a slice of one byte would cut a character.
pub open spec fn header_space(c: Seq<char>, n_bytes: nat, j: nat) -> Option<Option<nat>>
    decreases c.len() - j,
{
    if j >= c.len() || j + 1 >= n_bytes {
        Some(None)
    } else if !is_ascii_char(c[j as int]) {
        None
    } else if c[j as int] == ' ' {
        Some(Some(j))
    } else {
        header_space(c, n_bytes, j + 1)
    }
}

/// The value of a record, `v` being the characters after the space: without its first byte
/// (the opening quote) and its last two bytes (closing quote and bracket); `None` when those
/// byte positions cut a character or the value is shorter than three bytes.
pub open spec fn header_value(v: Seq<char>) -> Option<Seq<char>> {
    if utf8_len(v) < 3 || !is_ascii_char(v[0]) {
        None
    } else if char_width(v.last()) == 2 {
        Some(v.subrange(1, v.len() - 1))
    } else if char_width(v.last()) == 1 && v.len() >= 3 && char_width(v[v.len() - 2]) == 1 {
        Some(v.subrange(1, v.len() - 2))
    } else {
        None
    }
}

/// Key and value of a header record of characters `c` and `n_bytes` bytes: the key runs from
/// the second character to the first space, the value is the rest without its enclosing quote
/// and the closing bracket. `None` where reading the record would fail on a character boundary
/// or a too short value.
pub open spec fn header_record(c: Seq<char>, n_bytes: nat) -> Option<Result<(Seq<char>, Seq<char>), PgnError>> {
    if n_bytes == 0 {
        None
    } else if n_bytes <= 2 || c.len() <= 1 {
        Some(Err(PgnError::InvalidHeaderRecord))
    } else if !is_ascii_char(c[0]) {
        None
    } else {
        match header_space(c, n_bytes, 1) {
            None => None,
            Some(None) => Some(Err(PgnError::InvalidHeaderRecord)),
            Some(Some(j)) => match header_value(c.subrange(j + 1 as int, c.len() as int)) {
                None => None,
                Some(value) => Some(Ok((c.subrange(1, j as int), value))),
            },
        }
    }
}

proof fn lemma_utf8_len_ascii_front(v: Seq<char>)
    requires
        v.len() >= 1,
    ensures
        utf8_len(v) == char_width(v[0]) + utf8_len(v.drop_first()),
    decreases v.len(),
{
    if v.len() > 1 {
        lemma_utf8_len_ascii_front(v.drop_last());
        assert(v.drop_last().drop_first() =~= v.drop_first().drop_last());
        assert(v.drop_first().last() == v.last());
        assert(v.drop_last()[0] == v[0]);
        assert(utf8_len(v.drop_first()) == utf8_len(v.drop_first().drop_last()) + char_width(v.drop_first().last()));
        assert(utf8_len(v) == utf8_len(v.drop_last()) + char_width(v.last()));
        assert(utf8_len(v.drop_last()) == char_width(v.drop_last()[0]) + utf8_len(v.drop_last().drop_first()));
    } else {
        assert(v.drop_first().len() == 0);
        assert(v.drop_last().len() == 0);
        assert(v.last() == v[0]);
        assert(utf8_len(v.drop_last()) == 0);
        assert(utf8_len(v.drop_first()) == 0);
        assert(utf8_len(v) == char_width(v[0]));
    }
}

/// Splits a header record into key and value; `None` where the record cannot be read.
fn read_header_record(header_line: &str) -> (r: Option<Result<(String, String), PgnError>>)
    ensures
        match header_record(header_line@, header_line.spec_bytes().len()) {
            None => r is None,
            Some(Err(e)) => r == Some(Err::<(String, String), PgnError>(e)),
            Some(Ok((k, v))) => r matches Some(Ok((rk, rv))) && rk@ == k && rv@ == v,
        },
{
    let c = chars_of(header_line);
    let n_bytes = header_line.as_bytes().len();
    let ghost nb = n_bytes as nat;
    if n_bytes == 0 {
        return None;
    }
    if n_bytes <= 2 || c.len() <= 1 {
        return Some(Err(PgnError::InvalidHeaderRecord));
    }
    if !ascii(c[0]) {
        return None;
    }
    // Header lines are enclosed in square brackets: the scan starts after the opening one
    let mut j: usize = 1;
    while j < c.len() && j + 1 < n_bytes && ascii(c[j]) && c[j] != ' '
        invariant
            1 <= j <= c@.len(),
            c@ == header_line@,
            nb == header_line.spec_bytes().len(),
            header_space(c@, nb, 1) == header_space(c@, nb, j as nat),
        decreases c@.len() - j,
    {
        j = j + 1;
    }
    if j >= c.len() || j + 1 >= n_bytes {
        return Some(Err(PgnError::InvalidHeaderRecord));
    }
    if !ascii(c[j]) {
        return None;
    }
    // The space separates key and value; the value is enclosed in double quotes
    let ghost v = c@.subrange(j + 1 as int, c@.len() as int);
    let mut value_bytes: usize = 0;
    let mut k = j + 1;
    while k < c.len()
        invariant
            j + 1 <= k <= c@.len(),
            v == c@.subrange(j + 1, c@.len() as int),
            utf8_len(c@.subrange(j + 1, k as int)) < 3 ==> value_bytes == utf8_len(c@.subrange(j + 1, k as int)),
            utf8_len(c@.subrange(j + 1, k as int)) >= 3 ==> value_bytes >= 3,
            value_bytes <= 6,
        decreases c@.len() - k,
    {
        proof {
            assert(c@.subrange(j + 1, k + 1).drop_last() =~= c@.subrange(j + 1, k as int));
        }
        // Only whether the value has at least three bytes matters
        if value_bytes < 3 {
            value_bytes = value_bytes + width(c[k]);
        }
        k = k + 1;
    }
    proof {
        assert(c@.subrange(j + 1, k as int) =~= v);
        if v.len() >= 1 {
            lemma_utf8_len_ascii_front(v);
        }
    }
    if value_bytes < 3 || !ascii(c[j + 1]) {
        return None;
    }
    let n = c.len();
    let key = string_of(&c, 1, j);
    if width(c[n - 1]) == 2 {
        Some(Ok((key, string_of(&c, j + 2, n - 1))))
    } else if width(c[n - 1]) == 1 && n - (j + 1) >= 3 && width(c[n - 2]) == 1 {
        Some(Ok((key, string_of(&c, j + 2, n - 2))))
    } else {
        None
    }
}

// ---------------------------------------------------------------------------
// Game moves: "1. e4 e5 2. Nf3 {comment} Nc6 ... 1-0 ;comment"
// ---------------------------------------------------------------------------

/// The move tokens kept from `tokens[i..]`, with `brackets` commentary blocks open: empty
/// tokens, the result, "..." and "$n" are skipped, ";" ends the line, "{" / "(" open a block and
/// "}" / ")" close one, tokens inside blocks and move numbers (a leading digit) are skipped, the
/// others are kept trimmed. `None` when the count of open blocks would leave the range of a `u8`.
pub open spec fn scan_move_tokens(tokens: Seq<Seq<char>>, game_result: Seq<char>, i: nat, brackets: u8) -> Option<Seq<Seq<char>>>
    decreases tokens.len() - i,
{
    if i >= tokens.len() {
        Some(Seq::empty())
    } else {
        let t = tokens[i as int];
        if t.len() == 0 || t == game_result || t == seq!['.', '.', '.'] {
            scan_move_tokens(tokens, game_result, i + 1, brackets)
        } else if t[0] == ';' {
            Some(Seq::empty())
        } else if t[0] == '$' {
            scan_move_tokens(tokens, game_result, i + 1, brackets)
        } else {
            let opens = t[0] == '{' || t[0] == '(';
            if opens && brackets == 255 {
                None
            } else {
                let b1 = if opens { (brackets + 1) as u8 } else { brackets };
                if t.last() == '}' || t.last() == ')' {
                    if b1 == 0 {
                        None
                    } else {
                        scan_move_tokens(tokens, game_result, i + 1, (b1 - 1) as u8)
                    }
                } else if b1 > 0 || (48 <= (t[0] as u32) && (t[0] as u32) <= 57) {
                    scan_move_tokens(tokens, game_result, i + 1, b1)
                } else {
                    match scan_move_tokens(tokens, game_result, i + 1, b1) {
                        Some(rest) => Some(seq![trimmed(t)] + rest),
                        None => None,
                    }
                }
            }
        }
    }
}

/// The move tokens of a line of game moves; `None` when a commentary block is closed that was
/// not opened, or more than 255 are open at once.
pub open spec fn game_move_tokens(line: Seq<char>, game_result: Seq<char>) -> Option<Seq<Seq<char>>> {
    scan_move_tokens(split_at_spaces(line), game_result, 0, 0)
}

/// The pieces of `chars` between single spaces.
fn split_chars_at_spaces(chars: &Vec<char>) -> (r: Vec<Vec<char>>)
    ensures
        r@.map_values(|t: Vec<char>| t@) == split_at_spaces(chars@),
{
    let mut done: Vec<Vec<char>> = Vec::new();
    let mut current: Vec<char> = Vec::new();
    let mut i: usize = 0;
    while i < chars.len()
        invariant
            i <= chars@.len(),
            done@.map_values(|t: Vec<char>| t@).push(current@) == split_at_spaces(chars@.take(i as int)),
        decreases chars@.len() - i,
    {
        let ghost before = chars@.take(i as int);
        proof {
            assert(chars@.take(i + 1).drop_last() =~= before);
            lemma_split_nonempty(before);
        }
        if chars[i] == ' ' {
            let piece = current;
            done.push(piece);
            current = Vec::new();
            proof {
                assert(done@.map_values(|t: Vec<char>| t@).push(current@) =~= split_at_spaces(before).push(
                    Seq::empty(),
                ));
            }
        } else {
            current.push(chars[i]);
            proof {
                let r = split_at_spaces(before);
                assert(done@.map_values(|t: Vec<char>| t@).push(current@) =~= r.update(
                    r.len() - 1,
                    r.last().push(chars@[i as int]),
                ));
            }
        }
        i = i + 1;
    }
    proof {
        assert(chars@.take(i as int) =~= chars@);
    }
    done.push(current);
    done
}

/// Whether two character strings are equal.
pub(crate) fn same_chars(a: &Vec<char>, b: &Vec<char>) -> (r: bool)
    ensures
        r == (a@ == b@),
{
    if a.len() != b.len() {
        return false;
    }
    let mut i: usize = 0;
    while i < a.len()
        invariant
            a@.len() == b@.len(),
            i <= a@.len(),
            forall|k: int| 0 <= k < i ==> a@[k] == b@[k],
        decreases a@.len() - i,
    {
        if a[i] != b[i] {
            return false;
        }
        i = i + 1;
    }
    proof {
        assert(a@ =~= b@);
    }
    true
}

/// The characters of `t` without leading and trailing white space.
fn trim_chars(t: &Vec<char>) -> (s: String)
    ensures
        s@ == trimmed(t@),
{
    let mut from: usize = 0;
    proof {
        assert(t@.skip(0) =~= t@);
    }
    while from < t.len() && white_space(t[from])
        invariant
            from <= t@.len(),
            trim_start(t@.skip(from as int)) == trim_start(t@),
        decreases t@.len() - from,
    {
        proof {
            assert(t@.skip(from as int).drop_first() =~= t@.skip(from + 1));
        }
        from = from + 1;
    }
    proof {
        assert(trim_start(t@.skip(from as int)) == t@.skip(from as int));
        assert(t@.subrange(from as int, t@.len() as int) =~= t@.skip(from as int));
    }
    let mut to: usize = t.len();
    while to > from && white_space(t[to - 1])
        invariant
            from <= to <= t@.len(),
            trim_end(t@.subrange(from as int, to as int)) == trim_end(t@.skip(from as int)),
        decreases to,
    {
        proof {
            assert(t@.subrange(from as int, to as int).drop_last() =~= t@.subrange(from as int, to - 1));
        }
        to = to - 1;
    }
    proof {
        assert(trim_end(t@.subrange(from as int, to as int)) == t@.subrange(from as int, to as int));
    }
    string_of(t, from, to)
}

/// Appends the move tokens of `chars` (a line of game moves) to `game_moves`; false, with
/// `game_moves` partly filled, where a commentary block is closed that was not opened or more
/// than 255 would be open.
fn scan_game_moves(chars: &Vec<char>, result: &Vec<char>, game_moves: &mut VecDeque<String>) -> (ok: bool)
    ensures
        ok == game_move_tokens(chars@, result@) is Some,
        ok ==> final(game_moves)@.map_values(|s: String| s@) == old(game_moves)@.map_values(|s: String| s@)
            + game_move_tokens(chars@, result@)->Some_0,
{
    let tokens = split_chars_at_spaces(chars);
    let ghost tk = tokens@.map_values(|t: Vec<char>| t@);
    let ghost start = old(game_moves)@.map_values(|s: String| s@);
    let ghost whole = scan_move_tokens(tk, result@, 0, 0);
    let dots: Vec<char> = vec!['.', '.', '.'];
    proof {
        assert(dots@ =~= seq!['.', '.', '.']);
        assert(game_moves@.map_values(|s: String| s@) =~= start + Seq::<Seq<char>>::empty());
    }
    let mut commentary_brackets_found: u8 = 0;
    let mut i: usize = 0;
    let ghost mut pushed: Seq<Seq<char>> = Seq::empty();
    while i < tokens.len()
        invariant
            i <= tokens@.len(),
            tk == tokens@.map_values(|t: Vec<char>| t@),
            tk == split_at_spaces(chars@),
            dots@ == seq!['.', '.', '.'],
            whole == scan_move_tokens(tk, result@, 0, 0),
            start == old(game_moves)@.map_values(|s: String| s@),
            game_moves@.map_values(|s: String| s@) == start + pushed,
            whole == (match scan_move_tokens(tk, result@, i as nat, commentary_brackets_found) {
                Some(rest) => Some(pushed + rest),
                None => None,
            }),
        decreases tokens@.len() - i,
    {
        let t = &tokens[i];
        proof {
            assert(tk[i as int] == t@);
        }
        if t.len() == 0 || same_chars(t, result) || same_chars(t, &dots) {
            i = i + 1;
            continue;
        }
        // Comments continue to the end of the line
        if t[0] == ';' {
            proof {
                assert(whole == Some(pushed));
                assert(pushed + Seq::<Seq<char>>::empty() =~= pushed);
            }
            return true;
        }
        // Annotation glyphs such as "$4" are skipped
        if t[0] == '$' {
            i = i + 1;
            continue;
        }
        // Track the start of a commentary block
        if t[0] == '{' || t[0] == '(' {
            if commentary_brackets_found == 255 {
                return false;
            }
            commentary_brackets_found = commentary_brackets_found + 1;
        }
        // The end of a commentary block
        let last = t[t.len() - 1];
        if last == '}' || last == ')' {
            if commentary_brackets_found == 0 {
                return false;
            }
            commentary_brackets_found = commentary_brackets_found - 1;
            i = i + 1;
            continue;
        }
        // Skip commentary blocks and move numbers
        if commentary_brackets_found > 0 || (48 <= (t[0] as u32) && (t[0] as u32) <= 57) {
            i = i + 1;
            continue;
        }
        // A move token
        let token = trim_chars(t);
        let ghost before = game_moves@;
        proof {
            assert(token@ == trimmed(t@));
        }
        game_moves.push_back(token);
        proof {
            assert(game_moves@.len() == before.len() + 1);
            assert(forall|k: int| 0 <= k < before.len() ==> game_moves@[k] == before[k]);
            assert(game_moves@[before.len() as int]@ == trimmed(t@));
            assert(game_moves@.map_values(|s: String| s@) =~= before.map_values(|s: String| s@).push(trimmed(t@)));
            let rest = scan_move_tokens(tk, result@, (i + 1) as nat, commentary_brackets_found);
            if rest is Some {
                assert(pushed + (seq![trimmed(t@)] + rest->Some_0) =~= pushed.push(trimmed(t@)) + rest->Some_0);
            }
            assert(game_moves@.map_values(|s: String| s@) =~= start + pushed.push(trimmed(t@)));
            pushed = pushed.push(trimmed(t@));
        }
        i = i + 1;
    }
    proof {
        assert(pushed + Seq::<Seq<char>>::empty() =~= pushed);
    }
    true
}

// ---------------------------------------------------------------------------
// Signed numbers (ratings)
// ---------------------------------------------------------------------------

/// The value of a string of decimal digits.
pub open spec fn decimal_value(s: Seq<char>) -> int
    decreases s.len(),
{
    if s.len() == 0 {
        0
    } else {
        decimal_value(s.drop_last()) * 10 + (s.last() as u32 - 48)
    }
}

/// Every character is a decimal digit.
pub open spec fn all_decimal(s: Seq<char>) -> bool {
    forall|i: int| 0 <= i < s.len() ==> 48 <= (#[trigger] s[i] as u32) <= 57
}

/// The value of a signed decimal number with an optional sign, as the standard parsing of an
/// `i16` reads it; `None` when it is not such a number or out of range.
pub open spec fn i16_value(s: Seq<char>) -> Option<i16> {
    let negative = s.len() > 0 && s[0] == '-';
    let digits = if s.len() > 0 && (s[0] == '+' || s[0] == '-') {
        s.drop_first()
    } else {
        s
    };
    let v = if negative {
        -decimal_value(digits)
    } else {
        decimal_value(digits)
    };
    if digits.len() == 0 || !all_decimal(digits) || v < -32768 || v > 32767 {
        None
    } else {
        Some(v as i16)
    }
}

proof fn lemma_decimal_prefix(s: Seq<char>, k: int)
    requires
        0 <= k <= s.len(),
        all_decimal(s),
    ensures
        0 <= decimal_value(s.take(k)) <= decimal_value(s),
    decreases s.len(),
{
    if k < s.len() {
        assert(s.drop_last().take(k) =~= s.take(k));
        lemma_decimal_prefix(s.drop_last(), k);
        assert(48 <= (s[s.len() - 1] as u32));
    } else {
        assert(s.take(k) =~= s);
        if s.len() > 0 {
            lemma_decimal_prefix(s.drop_last(), s.len() - 1);
            assert(s.drop_last().take(s.len() - 1) =~= s.drop_last());
            assert(48 <= (s[s.len() - 1] as u32));
        }
    }
}

/// Reads a rating; `None` when it is not an `i16` number.
fn parse_i16(s: &String) -> (r: Option<i16>)
    ensures
        r == i16_value(s@),
{
    let c = chars_of(s.as_str());
    let negative = c.len() > 0 && c[0] == '-';
    let mut i: usize = if c.len() > 0 && (c[0] == '+' || c[0] == '-') {
        1
    } else {
        0
    };
    let ghost digits = if c@.len() > 0 && (c@[0] == '+' || c@[0] == '-') {
        c@.drop_first()
    } else {
        c@
    };
    proof {
        assert(digits =~= c@.subrange(i as int, c@.len() as int));
    }
    if i == c.len() {
        return None;
    }
    let start = i;
    let mut acc: u32 = 0;
    while i < c.len()
        invariant
            start <= i <= c@.len(),
            c@ == s@,
            digits == (if c@.len() > 0 && (c@[0] == '+' || c@[0] == '-') {
                c@.drop_first()
            } else {
                c@
            }),
            negative == (c@.len() > 0 && c@[0] == '-'),
            digits == c@.subrange(start as int, c@.len() as int),
            digits.len() > 0,
            all_decimal(digits.take(i - start)),
            acc == decimal_value(digits.take(i - start)),
            acc <= 32768,
        decreases c@.len() - i,
    {
        let ghost k = i - start;
        proof {
            assert(digits[k] == c@[i as int]);
            assert(digits.take(k + 1).drop_last() =~= digits.take(k));
            assert(digits.take(k + 1).last() == digits[k]);
        }
        let d = c[i] as u32;
        if d < 48 || d > 57 {
            return None;
        }
        acc = acc * 10 + (d - 48);
        if acc > 32768 {
            proof {
                assert(all_decimal(digits.take(k + 1)));
                if all_decimal(digits) {
                    lemma_decimal_prefix(digits, k + 1);
                }
            }
            return None;
        }
        i = i + 1;
    }
    proof {
        assert(digits.take(digits.len() as int) =~= digits);
    }
    if negative {
        Some((0 - acc as i32) as i16)
    } else if acc > 32767 {
        None
    } else {
        Some(acc as i16)
    }
}

// ---------------------------------------------------------------------------
// Reading games
// ---------------------------------------------------------------------------

/// The lowest rating of a player whose moves are used.
pub const MIN_ELO_RATING: i16 = 2200;

/// The score of a game result for white: 1 for "1-0", -1 for "0-1", 0 otherwise (a draw, or no
/// result given).
pub open spec fn result_score(game_result: Seq<char>) -> i8 {
    if game_result == seq!['0', '-', '1'] {
        -1i8
    } else if game_result == seq!['1', '-', '0'] {
        1i8
    } else {
        0i8
    }
}

/// A game being read from the lines of a PGN file.
pub struct PgnGameState {
    pub white_elo: i16,
    pub black_elo: i16,
    pub position: Position,
    pub game_moves: VecDeque<String>,
    pub game_moves_found: bool,
    pub game_result: String,
}

/// What reading one line of a game led to.
#[derive(Clone, Copy, Debug, PartialEq, Eq, Structural)]
pub enum PgnLineOutcome {
    /// The game goes on.
    Continue,
    /// A blank line after the moves: the game has ended.
    GameEnded,
    /// The line cannot be read: a header record without key and value, a rating that is not a
    /// number, a FEN position that cannot be read, or commentary brackets that do not match.
    Failed,
}

/// A game read from a PGN file: start position, moves, result score for white, and whether
/// white and black reached the minimum rating.
pub type PgnGame = (Position, VecDeque<String>, i8, bool, bool);

/// The fields of a game being read, as plain values: ratings, start position, moves, whether
/// moves were found, result.
pub open spec fn game_view(g: PgnGameState) -> (i16, i16, Position, Seq<Seq<char>>, bool, Seq<char>) {
    (g.white_elo, g.black_elo, g.position, g.game_moves@.map_values(|s: String| s@), g.game_moves_found, g.game_result@)
}

/// The game after a header record `key`/`value`: ratings and result are recorded, a FEN record
/// sets the start position; `None` when a rating or position cannot be read.
pub open spec fn after_header(g: (i16, i16, Position, Seq<Seq<char>>, bool, Seq<char>), key: Seq<char>, value: Seq<char>, value_bytes: Seq<u8>) -> Option<(i16, i16, Position, Seq<Seq<char>>, bool, Seq<char>)> {
    if key == seq!['W', 'h', 'i', 't', 'e', 'E', 'l', 'o'] {
        match i16_value(value) {
            Some(v) => Some((v, g.1, g.2, g.3, g.4, g.5)),
            None => None,
        }
    } else if key == seq!['B', 'l', 'a', 'c', 'k', 'E', 'l', 'o'] {
        match i16_value(value) {
            Some(v) => Some((g.0, v, g.2, g.3, g.4, g.5)),
            None => None,
        }
    } else if key == seq!['F', 'E', 'N'] {
        if fen_loadable(value_bytes) && fen_result(value_bytes) is Ok {
            Some((g.0, g.1, fen_result(value_bytes)->Ok_0, g.3, g.4, g.5))
        } else {
            None
        }
    } else if key == seq!['R', 'e', 's', 'u', 'l', 't'] {
        Some((g.0, g.1, g.2, g.3, g.4, value))
    } else {
        Some(g)
    }
}

impl PGNReader {
    /// Splits a header record `[Key "Value"]` into key and value.
    pub fn parse_pgn_header(header_line: &str) -> (r: Result<(String, String), PgnError>)
        requires
            header_record(header_line@, header_line.spec_bytes().len()) is Some,
        ensures
            match header_record(header_line@, header_line.spec_bytes().len()) {
                Some(Ok((k, v))) => r matches Ok((rk, rv)) && rk@ == k && rv@ == v,
                Some(Err(e)) => r == Err::<(String, String), PgnError>(e),
                None => false,
            },
    {
        match read_header_record(header_line) {
            Some(r) => r,
            None => Err(PgnError::InvalidHeaderRecord),
        }
    }

    /// Appends the moves of a line of game moves to `game_moves`, leaving out move numbers,
    /// the game result, commentary blocks, annotation glyphs and the comment after a ";".
    pub fn parse_pgn_game_moves(game_moves_line: &str, game_result: &str, game_moves: &mut VecDeque<String>)
        requires
            game_move_tokens(game_moves_line@, game_result@) is Some,
        ensures
            final(game_moves)@.map_values(|s: String| s@) == old(game_moves)@.map_values(|s: String| s@)
                + game_move_tokens(game_moves_line@, game_result@)->Some_0,
    {
        let line = chars_of(game_moves_line);
        let result = chars_of(game_result);
        scan_game_moves(&line, &result, game_moves);
    }

    /// The score of a game result for white: 1 for "1-0", -1 for "0-1", 0 for "1/2-1/2" and
    /// for anything else.
    pub fn parse_pgn_game_result(game_result: &str) -> (r: i8)
        ensures
            r == result_score(game_result@),
    {
        let c = chars_of(game_result);
        let black_won: Vec<char> = vec!['0', '-', '1'];
        let white_won: Vec<char> = vec!['1', '-', '0'];
        proof {
            assert(black_won@ =~= seq!['0', '-', '1']);
            assert(white_won@ =~= seq!['1', '-', '0']);
        }
        if same_chars(&c, &black_won) {
            -1
        } else if same_chars(&c, &white_won) {
            1
        } else {
            0
        }
    }
}

/// The step of reading one line of a game (`l` its characters, `n_bytes` its bytes): a blank
/// line ends a game whose moves were found, a "[" line is a header record, a line starting with
/// a digit (or any line once moves were found) holds moves; other lines are ignored.
pub open spec fn pgn_line_step(
    g: (i16, i16, Position, Seq<Seq<char>>, bool, Seq<char>),
    l: Seq<char>,
    n_bytes: nat,
) -> (PgnLineOutcome, (i16, i16, Position, Seq<Seq<char>>, bool, Seq<char>)) {
    if l.len() == 0 {
        (if g.4 { PgnLineOutcome::GameEnded } else { PgnLineOutcome::Continue }, g)
    } else if l[0] == '[' {
        match header_record(l, n_bytes) {
            Some(Ok((key, value))) => match after_header(g, key, value, encode_utf8(value)) {
                Some(g2) => (PgnLineOutcome::Continue, g2),
                None => (PgnLineOutcome::Failed, g),
            },
            _ => (PgnLineOutcome::Failed, g),
        }
    } else if (48 <= (l[0] as u32) && (l[0] as u32) <= 57) || g.4 {
        match game_move_tokens(l, g.5) {
            Some(ts) => (PgnLineOutcome::Continue, (g.0, g.1, g.2, g.3 + ts, true, g.5)),
            None => (PgnLineOutcome::Failed, g),
        }
    } else {
        (PgnLineOutcome::Continue, g)
    }
}

/// An ASCII text has as many bytes as characters.
proof fn lemma_utf8_len_ascii(s: Seq<char>)
    requires
        vstd::utf8::is_ascii_chars(s),
    ensures
        utf8_len(s) == s.len(),
    decreases s.len(),
{
    if s.len() > 0 {
        assert(vstd::utf8::is_ascii_chars(s.drop_last()));
        lemma_utf8_len_ascii(s.drop_last());
    }
}

/// A header record `[FEN "..."]` whose value is a readable FEN position makes that position the
/// start position of the game, and the game goes on; ratings, moves and result are kept. A FEN
/// value that cannot be read fails the line and leaves the game as it was.
pub proof fn lemma_fen_header_sets_start_position(
    g: (i16, i16, Position, Seq<Seq<char>>, bool, Seq<char>),
    v: Seq<char>,
)
    requires
        vstd::utf8::is_ascii_chars(v),
    ensures
        ({
            let l = seq!['[', 'F', 'E', 'N', ' ', '"'] + v + seq!['"', ']'];
            &&& vstd::utf8::is_ascii_chars(l)
            &&& encode_utf8(l).len() == l.len()
            &&& fen_loadable(encode_utf8(v)) && fen_result(encode_utf8(v)) is Ok ==> pgn_line_step(g, l, l.len()) == (
                PgnLineOutcome::Continue,
                (g.0, g.1, fen_result(encode_utf8(v))->Ok_0, g.3, g.4, g.5),
            )
            &&& !(fen_loadable(encode_utf8(v)) && fen_result(encode_utf8(v)) is Ok) ==> pgn_line_step(g, l, l.len())
                == (PgnLineOutcome::Failed, g)
        }),
{
    let l = seq!['[', 'F', 'E', 'N', ' ', '"'] + v + seq!['"', ']'];
    let n = l.len();
    assert(vstd::utf8::is_ascii_chars(l)) by {
        assert forall|i: int| 0 <= i < l.len() implies '\0' <= #[trigger] l[i] <= '\u{7f}' by {
            if 6 <= i < 6 + v.len() {
                assert(l[i] == v[i - 6]);
            }
        }
    }
    vstd::utf8::is_ascii_chars_encode_utf8(l);
    assert(l[0] == '[' && l[1] == 'F' && l[2] == 'E' && l[3] == 'N' && l[4] == ' ');
    assert(header_space(l, n, 1) == header_space(l, n, 2));
    assert(header_space(l, n, 2) == header_space(l, n, 3));
    assert(header_space(l, n, 3) == header_space(l, n, 4));
    assert(header_space(l, n, 4) == Some(Some(4nat)));
    let w = l.subrange(5, n as int);
    assert(w =~= seq!['"'] + v + seq!['"', ']']);
    assert(vstd::utf8::is_ascii_chars(w)) by {
        assert forall|i: int| 0 <= i < w.len() implies '\0' <= #[trigger] w[i] <= '\u{7f}' by {
            assert(w[i] == l[i + 5]);
        }
    }
    lemma_utf8_len_ascii(w);
    assert(w.last() == ']' && w[w.len() - 2] == '"' && w[0] == '"');
    assert(w.subrange(1, w.len() - 2) =~= v);
    assert(header_value(w) == Some(v));
    assert(l.subrange(1, 4) =~= seq!['F', 'E', 'N']);
    assert(header_record(l, n) == Some(Ok::<(Seq<char>, Seq<char>), PgnError>((seq!['F', 'E', 'N'], v))));
}

impl PgnGameState {
    /// A game not yet read: no ratings (-1), the starting position, no moves, no result.
    pub fn new() -> (r: Option<PgnGameState>)
        ensures
            r is Some <==> fen_loadable(fen_bytes(None)) && fen_result(fen_bytes(None)) is Ok,
            r matches Some(g) ==> game_view(g) == (
                -1i16,
                -1i16,
                fen_result(fen_bytes(None))->Ok_0,
                Seq::<Seq<char>>::empty(),
                false,
                Seq::<char>::empty(),
            ),
    {
        if !Position::fen_loadable_check(None) {
            return None;
        }
        match Position::from_fen(None) {
            Ok(position) => {
                let game_moves: VecDeque<String> = VecDeque::new();
                let g = PgnGameState {
                    white_elo: -1,
                    black_elo: -1,
                    position,
                    game_moves,
                    game_moves_found: false,
                    game_result: String::new(),
                };
                proof {
                    assert(game_view(g).3 =~= Seq::<Seq<char>>::empty());
                }
                Some(g)
            },
            Err(_) => None,
        }
    }
}

impl PGNReader {
    /// Reads one line of a game into the game state: ratings, start position and result from
    /// header records, moves from move lines; a blank line after the moves ends the game.
    pub fn process_pgn_line(game: &mut PgnGameState, line: &str) -> (r: PgnLineOutcome)
        ensures
            r == pgn_line_step(game_view(*old(game)), line@, line.spec_bytes().len()).0,
            r != PgnLineOutcome::Failed ==> game_view(*final(game)) == pgn_line_step(
                game_view(*old(game)),
                line@,
                line.spec_bytes().len(),
            ).1,
    {
        let ghost g0 = game_view(*game);
        let chars = chars_of(line);
        if chars.len() == 0 {
            // An empty line after a game means that the game has ended
            if game.game_moves_found {
                return PgnLineOutcome::GameEnded;
            }
            return PgnLineOutcome::Continue;
        }
        if chars[0] == '[' {
            // A header record
            let (key, value) = match read_header_record(line) {
                Some(Ok(kv)) => kv,
                _ => {
                    return PgnLineOutcome::Failed;
                },
            };
            let k = chars_of(key.as_str());
            let white_elo: Vec<char> = vec!['W', 'h', 'i', 't', 'e', 'E', 'l', 'o'];
            let black_elo: Vec<char> = vec!['B', 'l', 'a', 'c', 'k', 'E', 'l', 'o'];
            let fen: Vec<char> = vec!['F', 'E', 'N'];
            let result: Vec<char> = vec!['R', 'e', 's', 'u', 'l', 't'];
            proof {
                assert(white_elo@ =~= seq!['W', 'h', 'i', 't', 'e', 'E', 'l', 'o']);
                assert(black_elo@ =~= seq!['B', 'l', 'a', 'c', 'k', 'E', 'l', 'o']);
                assert(fen@ =~= seq!['F', 'E', 'N']);
                assert(result@ =~= seq!['R', 'e', 's', 'u', 'l', 't']);
            }
            if same_chars(&k, &white_elo) {
                match parse_i16(&value) {
                    Some(v) => {
                        game.white_elo = v;
                    },
                    None => {
                        return PgnLineOutcome::Failed;
                    },
                }
            } else if same_chars(&k, &black_elo) {
                match parse_i16(&value) {
                    Some(v) => {
                        game.black_elo = v;
                    },
                    None => {
                        return PgnLineOutcome::Failed;
                    },
                }
            } else if same_chars(&k, &fen) {
                if !Position::fen_loadable_check(Some(value.as_str())) {
                    return PgnLineOutcome::Failed;
                }
                match Position::from_fen(Some(value.as_str())) {
                    Ok(p) => {
                        game.position = p;
                    },
                    Err(_) => {
                        return PgnLineOutcome::Failed;
                    },
                }
            } else if same_chars(&k, &result) {
                game.game_result = value;
            }
            return PgnLineOutcome::Continue;
        }
        let first = chars[0] as u32;
        if (48 <= first && first <= 57) || game.game_moves_found {
            // Once game moves are found, lines are read as moves until a blank one
            let result = chars_of(game.game_result.as_str());
            let ghost before = game.game_moves@;
            if !scan_game_moves(&chars, &result, &mut game.game_moves) {
                return PgnLineOutcome::Failed;
            }
            game.game_moves_found = true;
            return PgnLineOutcome::Continue;
        }
        PgnLineOutcome::Continue
    }
}

impl PGNReader {
    /// The game read, kept when white or black reached the minimum rating and it has moves:
    /// start position, moves, result score for white, and which players reached the rating.
    pub fn finish_pgn_game(game: PgnGameState) -> (r: Option<PgnGame>)
        ensures
            ({
                let white_min_elo = game.white_elo >= MIN_ELO_RATING;
                let black_min_elo = game.black_elo >= MIN_ELO_RATING;
                if (white_min_elo || black_min_elo) && game.game_moves@.len() > 0 {
                    r matches Some(g) && g.0 == game.position && g.1@ == game.game_moves@ && g.2 == result_score(
                        game.game_result@,
                    ) && g.3 == white_min_elo && g.4 == black_min_elo
                } else {
                    r is None
                }
            }),
    {
        let white_min_elo = game.white_elo >= MIN_ELO_RATING;
        let black_min_elo = game.black_elo >= MIN_ELO_RATING;
        if (white_min_elo || black_min_elo) && game.game_moves.len() > 0 {
            let result = PGNReader::parse_pgn_game_result(game.game_result.as_str());
            Some((game.position, game.game_moves, result, white_min_elo, black_min_elo))
        } else {
            None
        }
    }
}

/// What playing a position of a game through led to.
#[derive(Clone, Copy, Debug, PartialEq, Eq, Structural)]
pub enum PgnPlyOutcome {
    /// The position is ready, with its legal moves and the move played next; whether the side
    /// to move reached the minimum rating (a position to train on).
    Ready(bool),
    /// No legal move matches the notation of the move played next.
    MoveNotFound,
}

/// The position a game is played through to: the next move made (when asked), then analysed.
pub open spec fn pgn_ply_position(r: PGNReader, play_next_move: bool) -> Position {
    if play_next_move {
        made_position(r.pgn_game_position, r.pgn_next_move_played, open_pins())
    } else {
        r.pgn_game_position
    }
}

impl PGNReader {
    /// A reader with no game loaded: the starting position, no moves.
    pub fn new() -> (r: Option<PGNReader>)
        ensures
            r is Some <==> fen_loadable(fen_bytes(None)) && fen_result(fen_bytes(None)) is Ok,
            r matches Some(reader) ==> reader.pgn_game_position == fen_result(fen_bytes(None))->Ok_0
                && reader.pgn_game_moves@.len() == 0 && reader.position_moves.wf()
                && reader.position_moves.list_len == 0,
    {
        if !Position::fen_loadable_check(None) {
            return None;
        }
        match Position::from_fen(None) {
            Ok(position) => Some(
                PGNReader {
                    pgn_game_position: position,
                    position_moves: GameMoveList::default(),
                    pgn_next_move_played: GameMove::default(),
                    pgn_game_moves: VecDeque::new(),
                    pgn_game_result: 0,
                    move_maker: MoveMaker::default(),
                    white_min_elo: false,
                    black_min_elo: false,
                },
            ),
            Err(_) => None,
        }
    }

    /// A new game is needed when one move or none is left: the last move of a game has no
    /// move after it to train on.
    pub fn needs_new_pgn_game(&self) -> (r: bool)
        ensures
            r == (self.pgn_game_moves@.len() <= 1),
    {
        self.pgn_game_moves.len() <= 1
    }

    /// Starts playing through a game read from the file.
    pub fn load_pgn_game(&mut self, game: PgnGame)
        ensures
            final(self).pgn_game_position == game.0,
            final(self).pgn_game_moves@ == game.1@,
            final(self).pgn_game_result == game.2,
            final(self).white_min_elo == game.3,
            final(self).black_min_elo == game.4,
            final(self).position_moves == old(self).position_moves,
            final(self).pgn_next_move_played == old(self).pgn_next_move_played,
    {
        let (pgn_game_position, pgn_game_moves, game_result, white_min_elo, black_min_elo) = game;
        self.pgn_game_position = pgn_game_position;
        self.pgn_game_moves = pgn_game_moves;
        self.pgn_game_result = game_result;
        self.white_min_elo = white_min_elo;
        self.black_min_elo = black_min_elo;
    }

    /// Takes the notation of the next move of the game and finds the legal move it names;
    /// false when no legal move matches (the game cannot be played through).
    pub fn set_next_pgn_move_played(&mut self) -> (found: bool)
        requires
            old(self).pgn_game_moves@.len() > 0,
            old(self).position_moves.wf(),
        ensures
            final(self).pgn_game_moves@ == old(self).pgn_game_moves@.drop_first(),
            final(self).position_moves.wf(),
            final(self).position_moves.keys() == old(self).position_moves.keys(),
            final(self).pgn_game_position == old(self).pgn_game_position,
            final(self).white_min_elo == old(self).white_min_elo,
            final(self).black_min_elo == old(self).black_min_elo,
            ({
                let search = partial_san_search(
                    old(self).position_moves.moves(),
                    old(self).pgn_game_moves@[0]@,
                    encode_utf8(old(self).pgn_game_moves@[0]@).len(),
                );
                match search {
                    Some(Some(i)) => found && move_key(final(self).pgn_next_move_played) == move_key(
                        old(self).position_moves.moves()[i],
                    ) && san_chars(final(self).pgn_next_move_played.extended_move_san) == extended_san(
                        old(self).position_moves.moves()[i],
                    ),
                    _ => !found,
                }
            }),
    {
        let next_move_san = match self.pgn_game_moves.pop_front() {
            Some(s) => s,
            None => String::new(),
        };
        match self.position_moves.move_by_partial_san_outcome(next_move_san.as_str()) {
            Some(Some(m)) => {
                self.pgn_next_move_played = m;
                true
            },
            _ => false,
        }
    }
}

/// The search for a move by partial notation depends only on what the moves play.
proof fn lemma_search_by_keys(ms1: Seq<GameMove>, ms2: Seq<GameMove>, p: Seq<char>, p_bytes: nat)
    requires
        ms1.len() == ms2.len(),
        forall|i: int| 0 <= i < ms1.len() ==> move_key(#[trigger] ms1[i]) == move_key(ms2[i]),
    ensures
        partial_san_search(ms1, p, p_bytes) == partial_san_search(ms2, p, p_bytes),
        partial_san_search(ms1, p, p_bytes) matches Some(Some(i)) ==> 0 <= i < ms1.len(),
    decreases ms1.len(),
{
    if ms1.len() > 0 {
        assert(move_key(ms1[0]) == move_key(ms2[0]));
        assert(extended_san(ms1[0]) == extended_san(ms2[0]));
        assert forall|i: int| 0 <= i < ms1.drop_first().len() implies move_key(#[trigger] ms1.drop_first()[i])
            == move_key(ms2.drop_first()[i]) by {
            assert(ms1.drop_first()[i] == ms1[i + 1]);
        }
        lemma_search_by_keys(ms1.drop_first(), ms2.drop_first(), p, p_bytes);
    }
}

impl PGNReader {
    /// Makes the move played next (when asked) and generates the legal moves of the position.
    fn generate_pgn_position_moves(&mut self, play_next_move: bool)
        requires
            play_next_move ==> make_move_ok(old(self).pgn_game_position, old(self).pgn_next_move_played),
            analysable(pgn_ply_position(*old(self), play_next_move)),
            generated_moves(pgn_ply_position(*old(self), play_next_move)).len() <= MAX_MOVES_PER_POSITION,
            old(self).position_moves.wf(),
        ensures
            final(self).pgn_game_position == prepared(pgn_ply_position(*old(self), play_next_move)),
            final(self).position_moves.wf(),
            final(self).position_moves.keys() == generated_moves(pgn_ply_position(*old(self), play_next_move)),
            final(self).pgn_game_moves == old(self).pgn_game_moves,
            final(self).white_min_elo == old(self).white_min_elo,
            final(self).black_min_elo == old(self).black_min_elo,
    {
        if play_next_move {
            // Apply the move played next to the current position
            let next_move = self.pgn_next_move_played;
            self.move_maker.make_move(&mut self.pgn_game_position, &next_move, false);
            proof {
                let pins = Seq::new(64, |i: int| u64::MAX);
                assert(exists|a: [u64; 64]| a@ == pins) by {
                    assert(self.pgn_game_position.pin_ray_masks@ =~= pins);
                }
                assert(open_pins() =~= self.pgn_game_position.pin_ray_masks);
            }
        }
        // Update the list of available moves in the position
        self.position_moves.clear();
        proof {
            assert(self.position_moves.keys() + generated_moves(self.pgn_game_position) =~= generated_moves(
                self.pgn_game_position,
            ));
        }
        PositionAnalyzer::calc_legal_moves(&mut self.pgn_game_position, &mut self.position_moves);
    }

    /// Plays the game through to its next position: makes the move played next (when asked),
    /// generates the legal moves of the position and finds among them the move played after
    /// it; the position is one to train on when the side to move reached the minimum rating.
    #[verifier::rlimit(40)]
    pub fn play_pgn_position(&mut self, play_next_move: bool) -> (r: PgnPlyOutcome)
        requires
            play_next_move ==> make_move_ok(old(self).pgn_game_position, old(self).pgn_next_move_played),
            analysable(pgn_ply_position(*old(self), play_next_move)),
            generated_moves(pgn_ply_position(*old(self), play_next_move)).len() <= MAX_MOVES_PER_POSITION,
            old(self).position_moves.wf(),
            old(self).pgn_game_moves@.len() > 0,
        ensures
            final(self).pgn_game_position == prepared(pgn_ply_position(*old(self), play_next_move)),
            final(self).position_moves.wf(),
            final(self).position_moves.keys() == generated_moves(pgn_ply_position(*old(self), play_next_move)),
            final(self).pgn_game_moves@ == old(self).pgn_game_moves@.drop_first(),
            ({
                let q = prepared(pgn_ply_position(*old(self), play_next_move));
                match partial_san_search(
                    final(self).position_moves.moves(),
                    old(self).pgn_game_moves@[0]@,
                    encode_utf8(old(self).pgn_game_moves@[0]@).len(),
                ) {
                    Some(Some(i)) => r == PgnPlyOutcome::Ready(
                        (q.white_to_move && old(self).white_min_elo) || (!q.white_to_move && old(self).black_min_elo),
                    ) && move_key(final(self).pgn_next_move_played) == move_key(final(self).position_moves.moves()[i]),
                    _ => r == PgnPlyOutcome::MoveNotFound,
                }
            }),
    {
        self.generate_pgn_position_moves(play_next_move);
        // Keep track of the next move played in the game
        let ghost generated = self.position_moves.moves();
        let ghost generated_keys = self.position_moves.keys();
        let found = self.set_next_pgn_move_played();
        proof {
            let after = self.position_moves.moves();
            assert forall|i: int| 0 <= i < generated.len() implies move_key(#[trigger] generated[i])
                == move_key(after[i]) by {
                assert(generated_keys[i] == move_key(generated[i]));
                assert(self.position_moves.keys()[i] == move_key(after[i]));
            }
            lemma_search_by_keys(
                generated,
                after,
                old(self).pgn_game_moves@[0]@,
                encode_utf8(old(self).pgn_game_moves@[0]@).len(),
            );
        }
        if !found {
            return PgnPlyOutcome::MoveNotFound;
        }
        proof {
            let search = partial_san_search(
                generated,
                old(self).pgn_game_moves@[0]@,
                encode_utf8(old(self).pgn_game_moves@[0]@).len(),
            );
            if let Some(Some(i)) = search {
                assert(move_key(generated[i]) == move_key(self.position_moves.moves()[i]));
            }
        }
        // A position to train on only if the player to move reached the minimum rating
        PgnPlyOutcome::Ready(
            (self.pgn_game_position.white_to_move && self.white_min_elo) || (!self.pgn_game_position.white_to_move
                && self.black_min_elo),
        )
    }
}

} // verus!
