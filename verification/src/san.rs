use vstd::prelude::*;
use vstd::std_specs::iter::IteratorSpec;
use vstd::string::StringSliceAdditionalSpecFns;
use crate::constants::PieceType;
use crate::game_move::{GameMove, extended_san, move_key, piece_letter, san_chars, san_string_as_str};
use crate::position_helper::{file_char, rank_char};
use crate::game_move_list::GameMoveList;

verus! {

/// The characters of a string, in order.
pub fn chars_of(s: &str) -> (r: Vec<char>)
    ensures
        r@ == s@,
{
    let mut r: Vec<char> = Vec::new();
    for c in it: s.chars()
        invariant
            r@ == it.seq().take(it.index() as int),
            it.seq() == s@,
    {
        r.push(c);
    }
    r
}

/// `c` is a file letter `a`..`h`.
pub open spec fn is_file_char(c: char) -> bool {
    97 <= (c as u32) <= 104
}

/// `c` is a rank digit `1`..`8`.
pub open spec fn is_rank_char(c: char) -> bool {
    49 <= (c as u32) <= 56
}

/// `c` is a piece letter in the range `B`..`R`.
pub open spec fn is_piece_char(c: char) -> bool {
    66 <= (c as u32) <= 82
}

/// `c` marks a check, a mate or an annotation.
pub open spec fn is_annotation(c: char) -> bool {
    c == '+' || c == '#' || c == '?' || c == '!'
}

/// `p` starts with `e`.
pub open spec fn starts_with(p: Seq<char>, e: Seq<char>) -> bool {
    e.len() <= p.len() && p.subrange(0, e.len() as int) == e
}

/// Matching a partial notation `p` against the full notation `e`, from the back: annotations
/// are skipped, `O` compares castling notations whole, other characters must equal the full
/// notation read from its back, up to and including the target file. `e[..eb]` and `p[..pb]`
/// are still unread. `None` when the full notation runs out.
pub open spec fn san_back(e: Seq<char>, p: Seq<char>, p_bytes: nat, eb: nat, pb: nat) -> Option<bool>
    decreases pb,
{
    if pb == 0 || pb > p.len() || eb > e.len() {
        Some(false)
    } else {
        let c = p[pb - 1];
        if c == 'O' {
            Some(e.len() + 1 >= p_bytes && starts_with(p, e))
        } else if is_annotation(c) {
            san_back(e, p, p_bytes, eb, (pb - 1) as nat)
        } else if eb == 0 {
            None
        } else if c != e[eb - 1] {
            Some(false)
        } else if is_file_char(c) {
            san_front(e, p, (eb - 1) as nat, (pb - 1) as nat)
        } else {
            san_back(e, p, p_bytes, (eb - 1) as nat, (pb - 1) as nat)
        }
    }
}

/// Matching the front of the partial notation, `p[..pb]`, against `e[..eb]`: the piece letter
/// is optional for pawns and must match otherwise.
pub open spec fn san_front(e: Seq<char>, p: Seq<char>, eb: nat, pb: nat) -> Option<bool> {
    if eb == 0 {
        None
    } else if pb == 0 {
        Some(e[0] == 'P')
    } else if is_piece_char(p[0]) {
        if e[0] != p[0] {
            Some(false)
        } else {
            san_source(e, p, 1, eb, 1, pb, false, false)
        }
    } else if e[0] != 'P' {
        Some(false)
    } else {
        san_source(e, p, 1, eb, 0, pb, false, false)
    }
}

/// One step forward in the unread part `e[ef..eb]` of the full notation (none at its end).
pub open spec fn step_front(ef: nat, eb: nat) -> nat {
    if ef < eb {
        ef + 1
    } else {
        ef
    }
}

/// Matching the optional source square (file and/or rank) and capture mark `p[pf..pb]` against
/// `e[ef..eb]`; `file_read` and `rank_read` tell whether the source file and rank of the full
/// notation were already passed.
pub open spec fn san_source(
    e: Seq<char>,
    p: Seq<char>,
    ef: nat,
    eb: nat,
    pf: nat,
    pb: nat,
    file_read: bool,
    rank_read: bool,
) -> Option<bool>
    decreases pb - pf,
{
    if pf >= pb || pb > p.len() || eb > e.len() {
        Some(true)
    } else {
        let c = p[pf as int];
        if is_file_char(c) {
            if ef >= eb {
                None
            } else if e[ef as int] != c {
                Some(false)
            } else {
                san_source(e, p, ef + 1, eb, pf + 1, pb, true, rank_read)
            }
        } else if is_rank_char(c) {
            let ef1 = if !file_read {
                step_front(ef, eb)
            } else {
                ef
            };
            if ef1 >= eb {
                None
            } else if e[ef1 as int] != c {
                Some(false)
            } else {
                san_source(e, p, ef1 + 1, eb, pf + 1, pb, true, true)
            }
        } else if c == 'x' {
            let ef1 = if !file_read {
                step_front(ef, eb)
            } else {
                ef
            };
            let ef2 = if !rank_read {
                step_front(ef1, eb)
            } else {
                ef1
            };
            if ef2 >= eb || e[ef2 as int] != c {
                Some(false)
            } else {
                san_source(e, p, ef2 + 1, eb, pf + 1, pb, true, true)
            }
        } else {
            san_source(e, p, ef, eb, pf + 1, pb, file_read, rank_read)
        }
    }
}

/// Whether the partial notation `p` (of `p_bytes` bytes) matches the full notation `e`;
/// `None` when the comparison runs past the end of the full notation.
pub open spec fn san_match(e: Seq<char>, p: Seq<char>, p_bytes: nat) -> Option<bool> {
    san_back(e, p, p_bytes, e.len(), p.len())
}

/// `p` starts with `e`.
fn chars_start_with(p: &Vec<char>, e: &Vec<char>) -> (r: bool)
    ensures
        r == starts_with(p@, e@),
{
    if e.len() > p.len() {
        return false;
    }
    let mut i: usize = 0;
    while i < e.len()
        invariant
            e@.len() <= p@.len(),
            i <= e@.len(),
            forall|k: int| 0 <= k < i ==> p@[k] == e@[k],
        decreases e@.len() - i,
    {
        if p[i] != e[i] {
            proof {
                assert(p@.subrange(0, e@.len() as int)[i as int] != e@[i as int]);
            }
            return false;
        }
        i = i + 1;
    }
    proof {
        assert(p@.subrange(0, e@.len() as int) =~= e@);
    }
    true
}

/// Matches the source part `p[pf..pb]` of a partial notation against `e[ef..eb]`; `None` where
/// the full notation runs out.
fn match_source(e: &Vec<char>, p: &Vec<char>, ef: usize, eb: usize, pf: usize, pb: usize) -> (r: Option<bool>)
    requires
        ef <= eb <= e@.len(),
        pf <= pb <= p@.len(),
    ensures
        r == san_source(e@, p@, ef as nat, eb as nat, pf as nat, pb as nat, false, false),
{
    let ghost whole = san_source(e@, p@, ef as nat, eb as nat, pf as nat, pb as nat, false, false);
    let mut front = ef;
    let mut pi = pf;
    // Finally, deal with the (optional) source square (file and/or rank), if one was specified
    let mut is_extended_source_file_consumed = false;
    let mut is_extended_source_rank_consumed = false;
    while pi < pb
        invariant
            front <= eb <= e@.len(),
            pi <= pb <= p@.len(),
            san_source(
                e@,
                p@,
                front as nat,
                eb as nat,
                pi as nat,
                pb as nat,
                is_extended_source_file_consumed,
                is_extended_source_rank_consumed,
            ) == whole,
            whole == san_source(e@, p@, ef as nat, eb as nat, pf as nat, pb as nat, false, false),
        decreases pb - pi,
    {
        let c = p[pi];
        if 97 <= (c as u32) && (c as u32) <= 104 {
            if front >= eb {
                return None;
            }
            if e[front] != c {
                return Some(false);
            }
            front = front + 1;
            is_extended_source_file_consumed = true;
        } else if 49 <= (c as u32) && (c as u32) <= 56 {
            if !is_extended_source_file_consumed {
                if front < eb {
                    front = front + 1;
                }
                is_extended_source_file_consumed = true;
            }
            if front >= eb {
                return None;
            }
            if e[front] != c {
                return Some(false);
            }
            front = front + 1;
            is_extended_source_rank_consumed = true;
        } else if c == 'x' {
            if !is_extended_source_file_consumed {
                if front < eb {
                    front = front + 1;
                }
                is_extended_source_file_consumed = true;
            }
            if !is_extended_source_rank_consumed {
                if front < eb {
                    front = front + 1;
                }
                is_extended_source_rank_consumed = true;
            }
            if front >= eb || e[front] != c {
                return Some(false);
            }
            front = front + 1;
        }
        pi = pi + 1;
    }
    Some(true)
}

/// Whether the partial notation `partial` (of `partial_bytes` bytes) matches the full
/// notation `extended`; `None` where the comparison runs past the end of the full notation.
fn san_match_outcome(extended: &Vec<char>, partial: &Vec<char>, partial_bytes: usize) -> (r: Option<bool>)
    ensures
        r == san_match(extended@, partial@, partial_bytes as nat),
{
    let ghost e = extended@;
    let ghost p = partial@;
    let ghost whole = san_match(e, p, partial_bytes as nat);
    // The loop below checks the back half of the string up to and incl. the dest. square
    let mut eb = extended.len();
    let mut pb = partial.len();
    loop
        invariant_except_break
            san_back(e, p, partial_bytes as nat, eb as nat, pb as nat) == whole,
        invariant
            eb <= e.len(),
            pb <= p.len(),
            e == extended@,
            p == partial@,
            whole == san_match(e, p, partial_bytes as nat),
        ensures
            eb <= e.len(),
            pb <= p.len(),
            san_front(e, p, eb as nat, pb as nat) == whole,
        decreases pb,
    {
        if pb == 0 {
            return Some(false);
        }
        let c = partial[pb - 1];
        if c == 'O' {
            // For castling moves, just match the whole string directly
            return Some((partial_bytes == 0 || extended.len() >= partial_bytes - 1) && chars_start_with(partial, extended));
        }
        if c == '+' || c == '#' || c == '?' || c == '!' {
            // Throw out any check / checkmate or annotation markers
            pb = pb - 1;
        } else {
            if eb == 0 {
                return None;
            }
            if c != extended[eb - 1] {
                return Some(false);
            }
            eb = eb - 1;
            pb = pb - 1;
            if 97 <= (c as u32) && (c as u32) <= 104 {
                // The target file ends the back half
                break;
            }
        }
    }
    // Now check the first char (i.e. the source piece making the move)
    if eb == 0 {
        return None;
    }
    let first_extended_san_char = extended[0];
    // There is nothing before the dest square (pawn moves that are not captures)
    if pb == 0 {
        return Some(first_extended_san_char == 'P');
    }
    let first_partial_san_char = partial[0];
    if 66 <= (first_partial_san_char as u32) && (first_partial_san_char as u32) <= 82 {
        // The piece type was specified: it must match
        if first_extended_san_char != first_partial_san_char {
            return Some(false);
        }
        match_source(extended, partial, 1, eb, 1, pb)
    } else {
        // No piece type was specified: it must be a pawn move
        if first_extended_san_char != 'P' {
            return Some(false);
        }
        match_source(extended, partial, 1, eb, 0, pb)
    }
}

/// Square letters and digits of squares on the board are file letters and rank digits.
proof fn lemma_square_chars(sq: u8)
    requires
        sq < 64,
    ensures
        is_file_char(file_char(sq)),
        is_rank_char(rank_char(sq)),
{
    crate::position_helper::lemma_byte_parts(sq);
}

/// A move's own extended notation names it: the extended notation of a move of a piece
/// between two squares of the board, taken as a partial notation (one byte per character),
/// matches the move.
pub proof fn lemma_notation_matches_itself(m: GameMove)
    requires
        m.source_square < 64,
        m.target_square < 64,
        m.piece != PieceType::NONE,
    ensures
        san_match(extended_san(m), extended_san(m), extended_san(m).len()) == Some(true),
{
    let e = extended_san(m);
    let n = e.len();
    lemma_square_chars(m.source_square);
    lemma_square_chars(m.target_square);
    if m.piece == PieceType::KING && (m.source_square - m.target_square == 2 || m.source_square
        - m.target_square == -2) {
        assert(e.subrange(0, n as int) =~= e);
    } else {
        // The back: promotion letter and '=', target rank, then the target file
        let k: nat = if m.is_capture { 4 } else { 3 };
        assert(e[0] == piece_letter(m.piece));
        assert(e[1] == file_char(m.source_square));
        assert(e[2] == rank_char(m.source_square));
        assert(m.is_capture ==> e[3] == 'x');
        assert(e[k as int] == file_char(m.target_square));
        assert(e[(k + 1) as int] == rank_char(m.target_square));
        if m.promotion_piece != PieceType::NONE {
            assert(n == k + 4);
            assert(e[(k + 2) as int] == '=');
            assert(e[(k + 3) as int] == piece_letter(m.promotion_piece));
            assert(san_back(e, e, n, k + 2, k + 2) == san_back(e, e, n, k + 1, k + 1));
            assert(san_back(e, e, n, k + 3, k + 3) == san_back(e, e, n, k + 2, k + 2));
            assert(san_back(e, e, n, k + 4, k + 4) == san_back(e, e, n, k + 3, k + 3));
        } else {
            assert(n == k + 2);
        }
        assert(san_back(e, e, n, k + 2, k + 2) == san_back(e, e, n, k + 1, k + 1));
        assert(san_back(e, e, n, k + 1, k + 1) == san_front(e, e, k, k));
        // The front: piece letter, source file and rank, capture mark
        assert(san_front(e, e, k, k) == san_source(e, e, 1, k, 1, k, false, false));
        assert(san_source(e, e, 1, k, 1, k, false, false) == san_source(e, e, 2, k, 2, k, true, false));
        assert(san_source(e, e, 2, k, 2, k, true, false) == san_source(e, e, 3, k, 3, k, true, true));
        if m.is_capture {
            assert(san_source(e, e, 3, k, 3, k, true, true) == san_source(e, e, 4, k, 4, k, true, true));
        }
    }
}

/// A pawn capture written with its source file, as "exd5", names only a pawn capture from that
/// file to that square: whenever such a notation matches a move, the move is a pawn's capture,
/// its source square is on the notation's file and its target square is the notation's square.
pub proof fn lemma_pawn_capture_notation_names_source_file(m: GameMove, f: char, t: u8)
    requires
        m.source_square < 64,
        m.target_square < 64,
        t < 64,
        is_file_char(f),
    ensures
        san_match(extended_san(m), seq![f, 'x', file_char(t), rank_char(t)], 4) == Some(true) ==> {
            &&& f == file_char(m.source_square)
            &&& m.piece == PieceType::PAWN
            &&& m.is_capture
            &&& file_char(m.target_square) == file_char(t)
            &&& rank_char(m.target_square) == rank_char(t)
        },
{
    let e = extended_san(m);
    let p = seq![f, 'x', file_char(t), rank_char(t)];
    let n = e.len();
    lemma_square_chars(m.source_square);
    lemma_square_chars(m.target_square);
    lemma_square_chars(t);
    assert(san_match(e, p, 4) == san_back(e, p, 4, n, 4));
    if m.piece == PieceType::KING && (m.source_square - m.target_square == 2 || m.source_square
        - m.target_square == -2) {
        assert(e[n - 1] == 'O');
        assert(san_back(e, p, 4, n, 4) == Some(false));
    } else {
        let k: nat = if m.is_capture { 4 } else { 3 };
        assert(e[0] == piece_letter(m.piece));
        assert(e[1] == file_char(m.source_square));
        assert(m.is_capture ==> e[3] == 'x');
        assert(!m.is_capture ==> e[3] == file_char(m.target_square));
        assert(e[k as int] == file_char(m.target_square));
        assert(e[(k + 1) as int] == rank_char(m.target_square));
        if m.promotion_piece != PieceType::NONE {
            assert(n == k + 4);
            assert(!is_rank_char(e[(k + 3) as int]));
            assert(san_back(e, p, 4, n, 4) == Some(false));
        } else {
            assert(n == k + 2);
            if rank_char(t) == rank_char(m.target_square) {
                assert(san_back(e, p, 4, n, 4) == san_back(e, p, 4, (n - 1) as nat, 3));
                if file_char(t) == file_char(m.target_square) {
                    assert(san_back(e, p, 4, (n - 1) as nat, 3) == san_front(e, p, (n - 2) as nat, 2));
                    assert(!is_piece_char(f));
                    if e[0] == 'P' {
                        assert(san_front(e, p, (n - 2) as nat, 2) == san_source(e, p, 1, (n - 2) as nat, 0, 2, false, false));
                        if e[1] == f {
                            assert(san_source(e, p, 1, (n - 2) as nat, 0, 2, false, false) == san_source(e, p, 2, (n - 2) as nat, 1, 2, true, false));
                            assert(step_front(2, (n - 2) as nat) == 3);
                        }
                    }
                }
            }
        }
    }
}

/// A piece move written as its letter and target square, as "Nf3", names only a move of that
/// piece to that square: whenever such a notation matches a move, the move's piece has that
/// letter and its target square is the notation's square.
pub proof fn lemma_piece_notation_names_piece(m: GameMove, c: char, t: u8)
    requires
        m.source_square < 64,
        m.target_square < 64,
        t < 64,
        is_piece_char(c),
    ensures
        san_match(extended_san(m), seq![c, file_char(t), rank_char(t)], 3) == Some(true) ==> {
            &&& piece_letter(m.piece) == c
            &&& file_char(m.target_square) == file_char(t)
            &&& rank_char(m.target_square) == rank_char(t)
        },
{
    let e = extended_san(m);
    let p = seq![c, file_char(t), rank_char(t)];
    let n = e.len();
    lemma_square_chars(m.source_square);
    lemma_square_chars(m.target_square);
    lemma_square_chars(t);
    assert(san_match(e, p, 3) == san_back(e, p, 3, n, 3));
    if m.piece == PieceType::KING && (m.source_square - m.target_square == 2 || m.source_square
        - m.target_square == -2) {
        assert(e[n - 1] == 'O');
        assert(san_back(e, p, 3, n, 3) == Some(false));
    } else {
        let k: nat = if m.is_capture { 4 } else { 3 };
        assert(e[0] == piece_letter(m.piece));
        assert(e[k as int] == file_char(m.target_square));
        assert(e[(k + 1) as int] == rank_char(m.target_square));
        if m.promotion_piece != PieceType::NONE {
            assert(n == k + 4);
            assert(!is_rank_char(e[(k + 3) as int]));
            assert(san_back(e, p, 3, n, 3) == Some(false));
        } else {
            assert(n == k + 2);
            if rank_char(t) == rank_char(m.target_square) {
                assert(san_back(e, p, 3, n, 3) == san_back(e, p, 3, (n - 1) as nat, 2));
                if file_char(t) == file_char(m.target_square) {
                    assert(san_back(e, p, 3, (n - 1) as nat, 2) == san_front(e, p, (n - 2) as nat, 1));
                }
            }
        }
    }
}

impl GameMove {
    /// Writes the extended notation of the move and matches the partial notation against it;
    /// `None` where the comparison would run past the end of the extended notation.
    pub fn partial_san_outcome(&mut self, partial_san: &str) -> (r: Option<bool>)
        ensures
            r == san_match(extended_san(*old(self)), partial_san@, partial_san.spec_bytes().len()),
            move_key(*final(self)) == move_key(*old(self)),
            san_chars(final(self).extended_move_san) == extended_san(*old(self)),
    {
        // Set the extended SAN move string just-in-time
        self.set_extended_san_move_string();
        let extended = chars_of(san_string_as_str(&self.extended_move_san));
        let partial = chars_of(partial_san);
        san_match_outcome(&extended, &partial, partial_san.as_bytes().len())
    }

    /// Whether the partial standard algebraic notation `partial_san` (e.g. "Nxf3", "Ngf3+",
    /// "exd5", "O-O") describes this move; the move's extended notation is written first.
    /// Check, mate and annotation marks are ignored; source file, rank and the piece letter
    /// of a pawn may be left out.
    pub fn is_partial_san_match(&mut self, partial_san: &str) -> (r: bool)
        requires
            san_match(extended_san(*old(self)), partial_san@, partial_san.spec_bytes().len()) is Some,
        ensures
            r == san_match(extended_san(*old(self)), partial_san@, partial_san.spec_bytes().len())->Some_0,
            move_key(*final(self)) == move_key(*old(self)),
            san_chars(final(self).extended_move_san) == extended_san(*old(self)),
    {
        match self.partial_san_outcome(partial_san) {
            Some(r) => r,
            None => false,
        }
    }
}

/// The search of the moves `ms`, from the first, for one that the partial notation `p` (of
/// `p_bytes` bytes) matches: `Some(Some(i))` for the first match, `Some(None)` for none, `None`
/// where a comparison runs past the end of a move's extended notation before a match.
pub open spec fn partial_san_search(ms: Seq<GameMove>, p: Seq<char>, p_bytes: nat) -> Option<Option<int>>
    decreases ms.len(),
{
    if ms.len() == 0 {
        Some(None)
    } else {
        match san_match(extended_san(ms[0]), p, p_bytes) {
            None => None,
            Some(true) => Some(Some(0)),
            Some(false) => match partial_san_search(ms.drop_first(), p, p_bytes) {
                Some(Some(i)) => Some(Some(i + 1)),
                other => other,
            },
        }
    }
}

impl GameMoveList {
    /// The first move in use that the partial notation matches (each move examined gets its
    /// extended notation written); `None` inside where a comparison would run past the end of
    /// an extended notation.
    pub fn move_by_partial_san_outcome(&mut self, partial_san: &str) -> (r: Option<Option<GameMove>>)
        requires
            old(self).wf(),
        ensures
            final(self).wf(),
            final(self).list_len == old(self).list_len,
            final(self).keys() == old(self).keys(),
            match partial_san_search(old(self).moves(), partial_san@, partial_san.spec_bytes().len()) {
                None => r is None,
                Some(None) => r == Some(None::<GameMove>),
                Some(Some(i)) => r matches Some(Some(m)) && move_key(m) == move_key(old(self).moves()[i])
                    && san_chars(m.extended_move_san) == extended_san(old(self).moves()[i]),
            },
    {
        let ghost ms = self.moves();
        let ghost pc = partial_san@;
        let ghost pbytes = partial_san.spec_bytes().len();
        let ghost whole = partial_san_search(ms, pc, pbytes);
        let mut i: usize = 0;
        proof {
            assert(ms.subrange(0, ms.len() as int) =~= ms);
        }
        while i < self.list_len
            invariant
                self.wf(),
                i <= self.list_len,
                self.list_len == old(self).list_len,
                self.keys() == old(self).keys(),
                ms == old(self).moves(),
                ms.len() == self.list_len,
                forall|k: int| i <= k < ms.len() ==> self.moves()[k] == ms[k],
                pc == partial_san@,
                pbytes == partial_san.spec_bytes().len(),
                whole == partial_san_search(ms, pc, pbytes),
                whole == (match partial_san_search(ms.subrange(i as int, ms.len() as int), pc, pbytes) {
                    Some(Some(j)) => Some(Some(j + i)),
                    other => other,
                }),
            decreases self.list_len - i,
        {
            let mut game_move = self.move_list[i];
            proof {
                assert(game_move == ms[i as int]);
                assert(ms.subrange(i as int, ms.len() as int)[0] == ms[i as int]);
                assert(ms.subrange(i as int, ms.len() as int).drop_first() =~= ms.subrange(i + 1, ms.len() as int));
            }
            let outcome = game_move.partial_san_outcome(partial_san);
            let ghost keys_before = self.keys();
            self.move_list.set(i, game_move);
            proof {
                assert(self.keys() =~= keys_before);
            }
            match outcome {
                None => {
                    return None;
                },
                Some(true) => {
                    return Some(Some(game_move));
                },
                Some(false) => {},
            }
            i = i + 1;
        }
        proof {
            assert(ms.subrange(i as int, ms.len() as int) =~= Seq::<GameMove>::empty());
        }
        Some(None)
    }

    /// The first move in use that the partial standard algebraic notation matches (each move
    /// examined gets its extended notation written).
    pub fn get_move_by_partial_san(&mut self, partial_san: &str) -> (r: Option<GameMove>)
        requires
            old(self).wf(),
            partial_san_search(old(self).moves(), partial_san@, partial_san.spec_bytes().len()) is Some,
        ensures
            final(self).wf(),
            final(self).keys() == old(self).keys(),
            match partial_san_search(old(self).moves(), partial_san@, partial_san.spec_bytes().len()) {
                Some(Some(i)) => r matches Some(m) && move_key(m) == move_key(old(self).moves()[i])
                    && san_chars(m.extended_move_san) == extended_san(old(self).moves()[i]),
                _ => r is None,
            },
    {
        match self.move_by_partial_san_outcome(partial_san) {
            Some(r) => r,
            None => None,
        }
    }
}

} // verus!
