use vstd::prelude::*;
use crate::pgn::{is_white_space, same_chars, white_space};
use crate::position_helper::string_push;
use crate::san::chars_of;

verus! {

/// A command of the Universal Chess Interface, as the engine reads it.
#[derive(Debug, PartialEq, Eq)]
pub enum UciCommand {
    /// "uci": identify the engine.
    Uci,
    /// "isready": answer that the engine is ready.
    IsReady,
    /// "stop": stop searching.
    Stop,
    /// "ucinewgame": start a new game.
    UciNewGame,
    /// "position fen <fen>" sets a position given in FEN, "position startpos" (or anything else
    /// after "position") the starting position.
    Position(Option<String>),
    /// "go": search the position.
    Go,
    /// "quit": end the engine.
    Quit,
    /// Any other command, ignored.
    Unknown,
}

/// The words of `s` from its first character, the current word being `cur`: words are the
/// longest runs of characters that are not white space.
pub open spec fn words_from(s: Seq<char>, cur: Seq<char>) -> Seq<Seq<char>>
    decreases s.len(),
{
    if s.len() == 0 {
        if cur.len() == 0 {
            Seq::empty()
        } else {
            seq![cur]
        }
    } else if is_white_space(s[0]) {
        if cur.len() == 0 {
            words_from(s.drop_first(), Seq::empty())
        } else {
            seq![cur] + words_from(s.drop_first(), Seq::empty())
        }
    } else {
        words_from(s.drop_first(), cur.push(s[0]))
    }
}

/// The words of `s`, separated by white space.
pub open spec fn words(s: Seq<char>) -> Seq<Seq<char>> {
    words_from(s, Seq::empty())
}

/// The words joined with single spaces.
pub open spec fn join_words(ws: Seq<Seq<char>>) -> Seq<char>
    decreases ws.len(),
{
    if ws.len() == 0 {
        Seq::empty()
    } else if ws.len() == 1 {
        ws[0]
    } else {
        join_words(ws.drop_last()) + seq![' '] + ws.last()
    }
}

/// The command a line holds, as plain values: `None` for a line without a word, or "position"
/// without a word after it (lines the engine cannot process); `Some((kind, fen))` otherwise,
/// the kind being the first word for a known command and empty for an unknown one, the FEN
/// given for "position fen".
pub open spec fn uci_command_of(line: Seq<char>) -> Option<(Seq<char>, Option<Seq<char>>)> {
    let ws = words(line);
    if ws.len() == 0 {
        None
    } else if ws[0] == seq!['p', 'o', 's', 'i', 't', 'i', 'o', 'n'] {
        if ws.len() < 2 {
            None
        } else if ws[1] == seq!['f', 'e', 'n'] {
            Some((ws[0], Some(join_words(ws.subrange(2, ws.len() as int)))))
        } else {
            Some((ws[0], None))
        }
    } else if ws[0] == seq!['u', 'c', 'i'] || ws[0] == seq!['i', 's', 'r', 'e', 'a', 'd', 'y'] || ws[0]
        == seq!['s', 't', 'o', 'p'] || ws[0] == seq!['u', 'c', 'i', 'n', 'e', 'w', 'g', 'a', 'm', 'e'] || ws[0]
        == seq!['g', 'o'] || ws[0] == seq!['q', 'u', 'i', 't'] {
        Some((ws[0], None))
    } else {
        Some((Seq::empty(), None))
    }
}

/// The command as plain values.
pub open spec fn command_view(c: UciCommand) -> (Seq<char>, Option<Seq<char>>) {
    match c {
        UciCommand::Uci => (seq!['u', 'c', 'i'], None),
        UciCommand::IsReady => (seq!['i', 's', 'r', 'e', 'a', 'd', 'y'], None),
        UciCommand::Stop => (seq!['s', 't', 'o', 'p'], None),
        UciCommand::UciNewGame => (seq!['u', 'c', 'i', 'n', 'e', 'w', 'g', 'a', 'm', 'e'], None),
        UciCommand::Position(fen) => (
            seq!['p', 'o', 's', 'i', 't', 'i', 'o', 'n'],
            match fen {
                Some(f) => Some(f@),
                None => None,
            },
        ),
        UciCommand::Go => (seq!['g', 'o'], None),
        UciCommand::Quit => (seq!['q', 'u', 'i', 't'], None),
        UciCommand::Unknown => (Seq::empty(), None),
    }
}

/// The words of `chars`.
fn split_words(chars: &Vec<char>) -> (r: Vec<Vec<char>>)
    ensures
        r@.map_values(|w: Vec<char>| w@) == words(chars@),
{
    let mut done: Vec<Vec<char>> = Vec::new();
    let mut cur: Vec<char> = Vec::new();
    let mut i: usize = 0;
    proof {
        assert(chars@.skip(0) =~= chars@);
        assert(done@.map_values(|w: Vec<char>| w@) + words_from(chars@.skip(0), cur@) =~= words(chars@));
    }
    while i < chars.len()
        invariant
            i <= chars@.len(),
            done@.map_values(|w: Vec<char>| w@) + words_from(chars@.skip(i as int), cur@) == words(chars@),
        decreases chars@.len() - i,
    {
        let ghost rest = chars@.skip(i as int);
        proof {
            assert(rest[0] == chars@[i as int]);
            assert(rest.drop_first() =~= chars@.skip(i + 1));
        }
        let c = chars[i];
        if white_space(c) {
            if cur.len() > 0 {
                let ghost before = done@.map_values(|w: Vec<char>| w@);
                let word = cur;
                done.push(word);
                cur = Vec::new();
                proof {
                    assert(done@.map_values(|w: Vec<char>| w@) =~= before.push(word@));
                    assert(before + (seq![word@] + words_from(chars@.skip(i + 1), Seq::empty())) =~= before.push(
                        word@,
                    ) + words_from(chars@.skip(i + 1), Seq::empty()));
                    assert(cur@ =~= Seq::<char>::empty());
                }
            } else {
                proof {
                    assert(cur@ =~= Seq::<char>::empty());
                }
            }
        } else {
            cur.push(c);
        }
        i = i + 1;
    }
    proof {
        assert(chars@.skip(i as int) =~= Seq::<char>::empty());
    }
    if cur.len() > 0 {
        let ghost before = done@.map_values(|w: Vec<char>| w@);
        let word = cur;
        done.push(word);
        proof {
            assert(done@.map_values(|w: Vec<char>| w@) =~= before + seq![word@]);
        }
    } else {
        proof {
            assert(done@.map_values(|w: Vec<char>| w@) + Seq::<Seq<char>>::empty() =~= done@.map_values(
                |w: Vec<char>| w@,
            ));
        }
    }
    done
}

/// Reads a command line of the Universal Chess Interface: its first word names the command;
/// for "position", the second word "fen" is followed by the FEN of the position. `None` for a
/// line that holds no word, or "position" alone.
pub fn parse_uci_command(cmd: &str) -> (r: Option<UciCommand>)
    ensures
        match uci_command_of(cmd@) {
            None => r is None,
            Some(v) => r matches Some(c) && command_view(c) == v,
        },
{
    let chars = chars_of(cmd);
    let cmd_tokens = split_words(&chars);
    let ghost ws = words(cmd@);
    proof {
        assert(cmd_tokens@.len() == ws.len());
    }
    if cmd_tokens.len() == 0 {
        return None;
    }
    let first = &cmd_tokens[0];
    let position: Vec<char> = vec!['p', 'o', 's', 'i', 't', 'i', 'o', 'n'];
    let fen: Vec<char> = vec!['f', 'e', 'n'];
    let uci: Vec<char> = vec!['u', 'c', 'i'];
    let isready: Vec<char> = vec!['i', 's', 'r', 'e', 'a', 'd', 'y'];
    let stop: Vec<char> = vec!['s', 't', 'o', 'p'];
    let ucinewgame: Vec<char> = vec!['u', 'c', 'i', 'n', 'e', 'w', 'g', 'a', 'm', 'e'];
    let go: Vec<char> = vec!['g', 'o'];
    let quit: Vec<char> = vec!['q', 'u', 'i', 't'];
    proof {
        assert(cmd_tokens@[0]@ == ws[0]);
        assert(position@ =~= seq!['p', 'o', 's', 'i', 't', 'i', 'o', 'n']);
        assert(fen@ =~= seq!['f', 'e', 'n']);
        assert(uci@ =~= seq!['u', 'c', 'i']);
        assert(isready@ =~= seq!['i', 's', 'r', 'e', 'a', 'd', 'y']);
        assert(stop@ =~= seq!['s', 't', 'o', 'p']);
        assert(ucinewgame@ =~= seq!['u', 'c', 'i', 'n', 'e', 'w', 'g', 'a', 'm', 'e']);
        assert(go@ =~= seq!['g', 'o']);
        assert(quit@ =~= seq!['q', 'u', 'i', 't']);
    }
    if same_chars(first, &uci) {
        Some(UciCommand::Uci)
    } else if same_chars(first, &isready) {
        Some(UciCommand::IsReady)
    } else if same_chars(first, &stop) {
        Some(UciCommand::Stop)
    } else if same_chars(first, &ucinewgame) {
        Some(UciCommand::UciNewGame)
    } else if same_chars(first, &position) {
        if cmd_tokens.len() < 2 {
            return None;
        }
        proof {
            assert(cmd_tokens@[1]@ == ws[1]);
        }
        if same_chars(&cmd_tokens[1], &fen) {
            // The rest of the line, words joined by single spaces, is the FEN
            let mut joined = String::new();
            let mut k: usize = 2;
            let ghost tail = ws.subrange(2, ws.len() as int);
            while k < cmd_tokens.len()
                invariant
                    2 <= k <= cmd_tokens@.len(),
                    cmd_tokens@.map_values(|w: Vec<char>| w@) == ws,
                    tail == ws.subrange(2, ws.len() as int),
                    joined@ == join_words(tail.take(k - 2)),
                decreases cmd_tokens@.len() - k,
            {
                let ghost before = joined@;
                if k > 2 {
                    string_push(&mut joined, ' ');
                }
                let w = &cmd_tokens[k];
                proof {
                    assert(w@ == tail[k - 2]);
                }
                let mut c: usize = 0;
                while c < w.len()
                    invariant
                        c <= w@.len(),
                        joined@ == (if k > 2 {
                            before + seq![' ']
                        } else {
                            before
                        }) + w@.take(c as int),
                    decreases w@.len() - c,
                {
                    string_push(&mut joined, w[c]);
                    proof {
                        assert(w@.take(c + 1) =~= w@.take(c as int).push(w@[c as int]));
                    }
                    c = c + 1;
                }
                proof {
                    assert(w@.take(c as int) =~= w@);
                    assert(tail.take(k - 1).drop_last() =~= tail.take(k - 2));
                    if k == 2 {
                        assert(before =~= Seq::<char>::empty());
                        assert(joined@ =~= tail.take(1)[0]);
                    }
                }
                k = k + 1;
            }
            proof {
                assert(tail.take(k - 2) =~= tail);
            }
            Some(UciCommand::Position(Some(joined)))
        } else {
            // "startpos" or anything else: the starting position
            Some(UciCommand::Position(None))
        }
    } else if same_chars(first, &go) {
        Some(UciCommand::Go)
    } else if same_chars(first, &quit) {
        Some(UciCommand::Quit)
    } else {
        Some(UciCommand::Unknown)
    }
}

} // verus!
