use vstd::prelude::*;
use crate::constants::PieceType;
use crate::game_move::{GameMove, move_key, extended_san, san_chars, san_string_as_str};

verus! {

#[verifier::external_type_specification]
#[verifier::external_body]
pub struct ExRegexError(regex::Error);

/// The first match of the regular expression `pattern` in `text`: `Some(Some(m))` for the
/// text `m` it matches first, `Some(None)` when it matches nowhere, `None` when the pattern does
/// not compile.
pub uninterp spec fn regex_first_match(pattern: Seq<char>, text: Seq<char>) -> Option<Option<Seq<char>>>;

/// `regex::Regex::new` and `Regex::find`: compiles `pattern` (with the default options) and
/// returns the text of its first match in `text`. The result is taken as a function of the
/// pattern and the text alone; which text matches is not stated.
#[verifier::external_body]
pub(crate) fn regex_find(pattern: &str, text: &str) -> (r: Result<Option<String>, regex::Error>)
    ensures
        r matches Ok(Some(m)) ==> regex_first_match(pattern@, text@) == Some(Some(m@)),
        r matches Ok(None) ==> regex_first_match(pattern@, text@) == Some(None::<Seq<char>>),
        r is Err ==> regex_first_match(pattern@, text@) is None,
{
    match regex::Regex::new(pattern) {
        Ok(re) => match re.find(text) {
            Some(m) => Ok(Some(String::from(m.as_str()))),
            None => Ok(None),
        },
        Err(e) => Err(e),
    }
}

/// Why a search by notation failed.
#[derive(Clone, Copy, Debug, PartialEq, Eq, Structural)]
pub enum SanPatternError {
    /// The regular expression does not compile.
    InvalidPattern,
}

/// The outcome of searching the notations `sans` for the pattern, from the first: the index of
/// the first match, `Ok(None)` when none matches, or the failure of the pattern.
pub open spec fn first_san_match(pattern: Seq<char>, sans: Seq<Seq<char>>) -> Result<Option<int>, SanPatternError>
    decreases sans.len(),
{
    if sans.len() == 0 {
        Ok(None)
    } else {
        match regex_first_match(pattern, sans[0]) {
            None => Err(SanPatternError::InvalidPattern),
            Some(Some(_)) => Ok(Some(0)),
            Some(None) => match first_san_match(pattern, sans.drop_first()) {
                Ok(Some(i)) => Ok(Some(i + 1)),
                other => other,
            },
        }
    }
}

/// The most moves a list can hold.
pub const MAX_MOVES_PER_POSITION: usize = 256;

/// A list of moves stored in a fixed block of `MAX_MOVES_PER_POSITION` slots,
/// of which the first `list_len` are in use.
pub struct GameMoveList {
    pub move_list: Vec<GameMove>,
    pub list_len: usize,
}

/// What a sequence of moves plays, move by move.
pub open spec fn move_keys(s: Seq<GameMove>) -> Seq<(PieceType, u8, u8, PieceType, bool)> {
    s.map_values(|m: GameMove| move_key(m))
}

impl GameMoveList {
    /// The block of slots has its full size and the length is within it.
    pub open spec fn wf(&self) -> bool {
        &&& self.move_list@.len() == MAX_MOVES_PER_POSITION
        &&& self.list_len <= MAX_MOVES_PER_POSITION
    }

    /// The moves in use, in order.
    pub open spec fn moves(&self) -> Seq<GameMove> {
        self.move_list@.subrange(0, self.list_len as int)
    }

    /// What the moves in use play, in order.
    pub open spec fn keys(&self) -> Seq<(PieceType, u8, u8, PieceType, bool)> {
        move_keys(self.moves())
    }

    /// The extended notations of the moves in use, in order.
    pub open spec fn sans(&self) -> Seq<Seq<char>> {
        self.moves().map_values(|m: GameMove| extended_san(m))
    }

    /// The first move (in list order) whose extended notation the regular expression
    /// `move_extended_san_re` matches somewhere; `Ok(None)` when none does.
    pub fn get_move_by_extended_san(&self, move_extended_san_re: &str) -> (r: Result<Option<GameMove>, SanPatternError>)
        requires
            self.wf(),
        ensures
            match first_san_match(move_extended_san_re@, self.sans()) {
                Ok(Some(i)) => r == Ok::<Option<GameMove>, SanPatternError>(Some(self.moves()[i])),
                Ok(None) => r == Ok::<Option<GameMove>, SanPatternError>(None),
                Err(e) => r == Err::<Option<GameMove>, SanPatternError>(e),
            },
    {
        let ghost pattern = move_extended_san_re@;
        let ghost all = self.sans();
        let mut i: usize = 0;
        proof {
            assert(all.subrange(0, all.len() as int) =~= all);
        }
        while i < self.list_len
            invariant
                self.wf(),
                i <= self.list_len,
                all == self.sans(),
                pattern == move_extended_san_re@,
                first_san_match(pattern, all) == (match first_san_match(pattern, all.subrange(i as int, all.len() as int)) {
                    Ok(Some(j)) => Ok(Some(j + i)),
                    other => other,
                }),
            decreases self.list_len - i,
        {
            let mut game_move = self.move_list[i];
            game_move.set_extended_san_move_string();
            let ghost rest = all.subrange(i as int, all.len() as int);
            proof {
                assert(rest[0] == san_chars(game_move.extended_move_san));
                assert(rest.drop_first() =~= all.subrange(i + 1, all.len() as int));
            }
            match regex_find(move_extended_san_re, san_string_as_str(&game_move.extended_move_san)) {
                Ok(Some(_)) => {
                    return Ok(Some(self.move_list[i]));
                },
                Ok(None) => {},
                Err(_) => {
                    return Err(SanPatternError::InvalidPattern);
                },
            }
            i = i + 1;
        }
        proof {
            assert(all.subrange(i as int, all.len() as int) =~= Seq::<Seq<char>>::empty());
        }
        Ok(None)
    }

    /// Empties the list (the slots keep their old contents).
    pub fn clear(&mut self)
        requires
            old(self).wf(),
        ensures
            final(self).wf(),
            final(self).list_len == 0,
            final(self).keys() == Seq::<(PieceType, u8, u8, PieceType, bool)>::empty(),
    {
        self.list_len = 0;
        proof {
            assert(self.keys() =~= Seq::<(PieceType, u8, u8, PieceType, bool)>::empty());
        }
    }

    /// Appends a move; the list must have a free slot.
    pub fn add_move(
        &mut self,
        piece: PieceType,
        source_square: u8,
        target_square: u8,
        is_capture: bool,
        promotion_piece: PieceType,
    )
        requires
            old(self).wf(),
            old(self).list_len < MAX_MOVES_PER_POSITION,
        ensures
            final(self).wf(),
            final(self).list_len == old(self).list_len + 1,
            final(self).keys() == old(self).keys().push(
                (piece, source_square, target_square, promotion_piece, is_capture),
            ),
            final(self).move_list@ == old(self).move_list@.update(
                old(self).list_len as int,
                final(self).move_list@[old(self).list_len as int],
            ),
            move_key(final(self).move_list@[old(self).list_len as int]) == (
                piece,
                source_square,
                target_square,
                promotion_piece,
                is_capture,
            ),
            san_chars(final(self).move_list@[old(self).list_len as int].extended_move_san) == Seq::<char>::empty(),
    {
        let m = GameMove::new(piece, source_square, target_square, promotion_piece, is_capture);
        let ghost old_keys = self.keys();
        self.move_list.set(self.list_len, m);
        self.list_len = self.list_len + 1;
        proof {
            assert(self.keys() =~= old_keys.push(
                (piece, source_square, target_square, promotion_piece, is_capture),
            ));
            assert(self.move_list@ =~= old(self).move_list@.update(
                old(self).list_len as int,
                self.move_list@[old(self).list_len as int],
            ));
        }
    }
}

impl Default for GameMoveList {
    fn default() -> (l: GameMoveList)
        ensures
            l.wf(),
            l.list_len == 0,
    {
        let mut move_list: Vec<GameMove> = Vec::new();
        let mut i: usize = 0;
        while i < MAX_MOVES_PER_POSITION
            invariant
                i <= MAX_MOVES_PER_POSITION,
                move_list@.len() == i,
            decreases MAX_MOVES_PER_POSITION - i,
        {
            move_list.push(GameMove::default());
            i = i + 1;
        }
        GameMoveList { move_list, list_len: 0 }
    }
}

} // verus!
