use vstd::prelude::*;
use crate::game_move_list::{regex_find, regex_first_match};
use crate::move_text::{join_sorted, join_texts, sort_texts};
use crate::san::chars_of;

verus! {

/// Reads the answers of Stockfish, the reference move generator.
pub struct StockfishInterface {}

/// `t` occurs in `s` from position `i` on.
pub open spec fn occurs_at(s: Seq<char>, t: Seq<char>, i: int) -> bool {
    0 <= i && i + t.len() <= s.len() && s.subrange(i, i + t.len()) == t
}

/// `t` occurs somewhere in `s`.
pub open spec fn contains_text(s: Seq<char>, t: Seq<char>) -> bool {
    exists|i: int| occurs_at(s, t, i)
}

/// Whether `t` occurs in `s` from position `i` on.
fn chars_at(s: &Vec<char>, t: &Vec<char>, i: usize) -> (r: bool)
    requires
        i + t@.len() <= s@.len(),
    ensures
        r == occurs_at(s@, t@, i as int),
{
    let mut k: usize = 0;
    while k < t.len()
        invariant
            i + t@.len() <= s@.len(),
            s@.len() == s.len(),
            k <= t@.len(),
            forall|j: int| 0 <= j < k ==> s@[i + j] == t@[j],
        decreases t@.len() - k,
    {
        if s[i + k] != t[k] {
            proof {
                assert(s@.subrange(i as int, i + t@.len())[k as int] != t@[k as int]);
            }
            return false;
        }
        k = k + 1;
    }
    proof {
        assert(s@.subrange(i as int, i + t@.len()) =~= t@);
    }
    true
}

/// Whether `t` occurs in `s`.
fn contains_chars(s: &Vec<char>, t: &Vec<char>) -> (r: bool)
    ensures
        r == contains_text(s@, t@),
{
    if t.len() > s.len() {
        proof {
            assert forall|i: int| !occurs_at(s@, t@, i) by {}
        }
        return false;
    }
    let last = s.len() - t.len();
    let mut i: usize = 0;
    loop
        invariant_except_break
            i <= last,
        invariant
            last == s@.len() - t@.len(),
            forall|j: int| 0 <= j < i ==> !occurs_at(s@, t@, j),
        ensures
            forall|j: int| 0 <= j <= last ==> !occurs_at(s@, t@, j),
        decreases last - i,
    {
        if chars_at(s, t, i) {
            return true;
        }
        if i == last {
            break;
        }
        i = i + 1;
    }
    proof {
        assert forall|j: int| !occurs_at(s@, t@, j) by {
            if 0 <= j && j + t@.len() <= s@.len() {
                assert(j <= last);
            }
        }
    }
    false
}

impl StockfishInterface {
    /// Reads one line of Stockfish's answer to "go perft 1": a line starting with a move in
    /// coordinate notation ("e2e4", "a7a8q") adds that move to `moves`; the line holding "Nodes
    /// searched" ends the answer.
    pub fn stockfish_perft_line(moves: &mut Vec<String>, line: &str) -> (done: bool)
        ensures
            done == contains_text(line@, "Nodes searched"@),
            final(moves)@.map_values(|m: String| m@) == old(moves)@.map_values(|m: String| m@) + (
            match regex_first_match("^[a-h][1-8][a-h][1-8][nrqb]?"@, line@) {
                Some(Some(m)) => seq![m],
                _ => Seq::<Seq<char>>::empty(),
            }),
    {
        let ghost before = moves@;
        match regex_find("^[a-h][1-8][a-h][1-8][nrqb]?", line) {
            Ok(Some(m)) => {
                moves.push(m);
                proof {
                    assert(moves@.map_values(|m: String| m@) =~= before.map_values(|m: String| m@) + seq![m@]);
                }
            },
            _ => {
                proof {
                    assert(before.map_values(|m: String| m@) + Seq::<Seq<char>>::empty() =~= before.map_values(
                        |m: String| m@,
                    ));
                }
            },
        }
        let line_chars = chars_of(line);
        let marker = chars_of("Nodes searched");
        contains_chars(&line_chars, &marker)
    }

    /// Stockfish's moves, sorted and separated by spaces, and their number.
    pub fn stockfish_move_list(moves: &Vec<String>) -> (r: (String, usize))
        ensures
            r.0@ == join_texts(sort_texts(moves@.map_values(|m: String| m@))),
            r.1 == moves@.len(),
    {
        let mut texts: Vec<Vec<char>> = Vec::new();
        let mut i: usize = 0;
        while i < moves.len()
            invariant
                i <= moves@.len(),
                texts@.len() == i,
                forall|k: int| 0 <= k < i ==> (#[trigger] texts@[k])@ == moves@[k]@,
            decreases moves@.len() - i,
        {
            texts.push(chars_of(moves[i].as_str()));
            i = i + 1;
        }
        proof {
            assert(texts@.map_values(|t: Vec<char>| t@) =~= moves@.map_values(|m: String| m@));
        }
        (join_sorted(&texts), moves.len())
    }
}

} // verus!
