use vstd::prelude::*;
use arrayvec::ArrayString;
use crate::constants::PieceType;
use crate::position_helper::{PositionHelper, file_char, rank_char, square_name, string_push};

verus! {

#[verifier::external_type_specification]
#[verifier::external_body]
pub struct ExArrayString<const CAP: usize>(ArrayString<CAP>);

/// The characters an `ArrayString<16>` holds.
pub uninterp spec fn san_chars(s: ArrayString<16>) -> Seq<char>;

/// Every character is ASCII (one byte each).
pub open spec fn all_ascii(s: Seq<char>) -> bool {
    forall|i: int| 0 <= i < s.len() ==> (s[i] as u32) < 128
}

/// `ArrayString::new`: an empty string.
#[verifier::external_body]
fn san_string_new() -> (r: ArrayString<16>)
    ensures
        san_chars(r) == Seq::<char>::empty(),
{
    ArrayString::<16>::new()
}

/// `ArrayString::clear`: empties the string.
#[verifier::external_body]
fn san_string_clear(s: &mut ArrayString<16>)
    ensures
        san_chars(*final(s)) == Seq::<char>::empty(),
{
    s.clear()
}

/// `ArrayString::push`: appends one character; the string must keep room for it, which
/// holds for an ASCII character when the string is ASCII and shorter than its capacity of 16 bytes.
#[verifier::external_body]
fn san_string_push(s: &mut ArrayString<16>, c: char)
    requires
        all_ascii(san_chars(*old(s))),
        san_chars(*old(s)).len() < 16,
        (c as u32) < 128,
    ensures
        san_chars(*final(s)) == san_chars(*old(s)).push(c),
{
    s.push(c)
}

/// `ArrayString::as_str`: the characters held.
#[verifier::external_body]
pub(crate) fn san_string_as_str(s: &ArrayString<16>) -> (r: &str)
    ensures
        r@ == san_chars(*s),
{
    s.as_str()
}

/// A move of a piece from a source to a target square, with its extended
/// standard algebraic notation (e.g. "Ng1f3", "Pf7xg8=N", "O-O").
#[derive(Clone, Copy)]
pub struct GameMove {
    pub piece: PieceType,
    pub source_square: u8,
    pub target_square: u8,
    pub promotion_piece: PieceType,
    pub is_capture: bool,
    pub extended_move_san: ArrayString<16>,
}

/// The letter of a piece type in move notation.
pub open spec fn piece_letter(p: PieceType) -> char {
    match p {
        PieceType::PAWN => 'P',
        PieceType::KNIGHT => 'N',
        PieceType::BISHOP => 'B',
        PieceType::ROOK => 'R',
        PieceType::QUEEN => 'Q',
        PieceType::KING => 'K',
        PieceType::NONE => '?',
    }
}

/// The extended standard algebraic notation of a move: "O-O-O" / "O-O" for a king moving two
/// squares left / right, otherwise piece letter, source square, 'x' for a capture, target
/// square and '=' with the promotion letter.
pub open spec fn extended_san(m: GameMove) -> Seq<char> {
    if m.piece == PieceType::KING && m.source_square - m.target_square == 2 {
        seq!['O', '-', 'O', '-', 'O']
    } else if m.piece == PieceType::KING && m.source_square - m.target_square == -2 {
        seq!['O', '-', 'O']
    } else {
        seq![piece_letter(m.piece), file_char(m.source_square), rank_char(m.source_square)]
            + (if m.is_capture {
            seq!['x']
        } else {
            Seq::empty()
        }) + seq![file_char(m.target_square), rank_char(m.target_square)] + (
        if m.promotion_piece != PieceType::NONE {
            seq!['=', piece_letter(m.promotion_piece)]
        } else {
            Seq::empty()
        })
    }
}

/// The move fields that describe what is played, without the notation buffer.
pub open spec fn move_key(m: GameMove) -> (PieceType, u8, u8, PieceType, bool) {
    (m.piece, m.source_square, m.target_square, m.promotion_piece, m.is_capture)
}

impl GameMove {
    /// A move whose fields are as given and whose notation buffer is empty.
    pub fn new(
        piece: PieceType,
        source_square: u8,
        target_square: u8,
        promotion_piece: PieceType,
        is_capture: bool,
    ) -> (m: GameMove)
        ensures
            move_key(m) == (piece, source_square, target_square, promotion_piece, is_capture),
            san_chars(m.extended_move_san) == Seq::<char>::empty(),
    {
        GameMove {
            piece,
            source_square,
            target_square,
            promotion_piece,
            is_capture,
            extended_move_san: san_string_new(),
        }
    }

    /// The letter of a piece type in move notation ('?' for none).
    pub fn get_piece_type_letter(piece_type: PieceType) -> (c: char)
        ensures
            c == piece_letter(piece_type),
    {
        match piece_type {
            PieceType::PAWN => 'P',
            PieceType::KNIGHT => 'N',
            PieceType::BISHOP => 'B',
            PieceType::ROOK => 'R',
            PieceType::QUEEN => 'Q',
            PieceType::KING => 'K',
            _ => '?',
        }
    }

    /// Writes the extended algebraic notation of the move into its notation buffer.
    pub fn set_extended_san_move_string(&mut self)
        ensures
            move_key(*final(self)) == move_key(*old(self)),
            san_chars(final(self).extended_move_san) == extended_san(*old(self)),
    {
        san_string_clear(&mut self.extended_move_san);
        let ghost m = *self;
        if self.piece == PieceType::KING {
            let square_diff: i16 = self.source_square as i16 - self.target_square as i16;
            if square_diff == 2 {
                san_string_push(&mut self.extended_move_san, 'O');
                san_string_push(&mut self.extended_move_san, '-');
                san_string_push(&mut self.extended_move_san, 'O');
                san_string_push(&mut self.extended_move_san, '-');
                san_string_push(&mut self.extended_move_san, 'O');
                proof {
                    assert(san_chars(self.extended_move_san) =~= extended_san(m));
                }
                return;
            }
            if square_diff == -2 {
                san_string_push(&mut self.extended_move_san, 'O');
                san_string_push(&mut self.extended_move_san, '-');
                san_string_push(&mut self.extended_move_san, 'O');
                proof {
                    assert(san_chars(self.extended_move_san) =~= extended_san(m));
                }
                return;
            }
        }
        proof {
            lemma_square_chars_ascii(self.source_square);
            lemma_square_chars_ascii(self.target_square);
        }
        san_string_push(&mut self.extended_move_san, GameMove::get_piece_type_letter(self.piece));
        san_string_push(
            &mut self.extended_move_san,
            PositionHelper::algebraic_file_from_index(self.source_square),
        );
        san_string_push(
            &mut self.extended_move_san,
            PositionHelper::algebraic_rank_from_index(self.source_square),
        );
        if self.is_capture {
            san_string_push(&mut self.extended_move_san, 'x');
        }
        san_string_push(
            &mut self.extended_move_san,
            PositionHelper::algebraic_file_from_index(self.target_square),
        );
        san_string_push(
            &mut self.extended_move_san,
            PositionHelper::algebraic_rank_from_index(self.target_square),
        );
        if self.promotion_piece != PieceType::NONE {
            san_string_push(&mut self.extended_move_san, '=');
            san_string_push(
                &mut self.extended_move_san,
                GameMove::get_piece_type_letter(self.promotion_piece),
            );
        }
        proof {
            assert(san_chars(self.extended_move_san) =~= extended_san(m));
        }
    }
}

proof fn lemma_square_chars_ascii(i: u8)
    ensures
        (file_char(i) as u32) < 128,
        (rank_char(i) as u32) < 128,
{
    crate::position_helper::lemma_byte_parts(i);
}

impl Default for GameMove {
    fn default() -> (m: GameMove)
        ensures
            move_key(m) == (PieceType::NONE, 0u8, 0u8, PieceType::NONE, false),
            san_chars(m.extended_move_san) == Seq::<char>::empty(),
    {
        GameMove::new(PieceType::NONE, 0, 0, PieceType::NONE, false)
    }
}

/// The lower-case letter of a promotion piece in coordinate notation (none for a pawn, a king
/// or no promotion).
pub open spec fn promotion_suffix(p: PieceType) -> Seq<char> {
    match p {
        PieceType::QUEEN => seq!['q'],
        PieceType::KNIGHT => seq!['n'],
        PieceType::ROOK => seq!['r'],
        PieceType::BISHOP => seq!['b'],
        _ => Seq::empty(),
    }
}

/// The coordinate notation of a move: source square, target square and promotion letter
/// (e.g. "e2e4", "f7g8n").
pub open spec fn uci_text(m: GameMove) -> Seq<char> {
    square_name(m.source_square) + square_name(m.target_square) + promotion_suffix(m.promotion_piece)
}

impl GameMove {
    /// The coordinate notation of the move, e.g. "e2e4" or "f7g8n".
    pub fn get_uci_move_string(&self) -> (s: String)
        ensures
            s@ == uci_text(*self),
    {
        let mut result = PositionHelper::algebraic_from_index(self.source_square);
        string_push(&mut result, PositionHelper::algebraic_file_from_index(self.target_square));
        string_push(&mut result, PositionHelper::algebraic_rank_from_index(self.target_square));
        match self.promotion_piece {
            PieceType::QUEEN => string_push(&mut result, 'q'),
            PieceType::KNIGHT => string_push(&mut result, 'n'),
            PieceType::ROOK => string_push(&mut result, 'r'),
            PieceType::BISHOP => string_push(&mut result, 'b'),
            _ => {},
        }
        proof {
            assert(result@ =~= uci_text(*self));
        }
        result
    }
}

/// The coordinate notation is four characters, the source and target square names, followed for
/// a promotion to a knight, bishop, rook or queen by one more: the lower-case form of the
/// promotion piece's letter in the move's standard notation (`n`, `b`, `r`, `q`).
pub proof fn lemma_uci_promotion_letter(m: GameMove)
    ensures
        uci_text(m).subrange(0, 4) == square_name(m.source_square) + square_name(m.target_square),
        (m.promotion_piece == PieceType::KNIGHT || m.promotion_piece == PieceType::BISHOP
            || m.promotion_piece == PieceType::ROOK || m.promotion_piece == PieceType::QUEEN) ==> {
            &&& uci_text(m).len() == 5
            &&& uci_text(m)[4] as u32 == piece_letter(m.promotion_piece) as u32 + 32
        },
        !(m.promotion_piece == PieceType::KNIGHT || m.promotion_piece == PieceType::BISHOP
            || m.promotion_piece == PieceType::ROOK || m.promotion_piece == PieceType::QUEEN) ==> uci_text(m).len()
            == 4,
{
    assert(uci_text(m).subrange(0, 4) =~= square_name(m.source_square) + square_name(m.target_square));
}

} // verus!
