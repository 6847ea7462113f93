use vstd::prelude::*;
use crate::game_move::{GameMove, uci_text};
use crate::game_move_list::GameMoveList;
use crate::position_helper::string_push;
use crate::san::chars_of;

verus! {

/// `a` comes strictly before `b` when their characters are compared in order (a proper prefix
/// comes first), the order of `String`.
pub open spec fn text_less(a: Seq<char>, b: Seq<char>) -> bool
    decreases a.len(),
{
    if b.len() == 0 {
        false
    } else if a.len() == 0 {
        true
    } else if (a[0] as u32) != (b[0] as u32) {
        (a[0] as u32) < (b[0] as u32)
    } else {
        text_less(a.drop_first(), b.drop_first())
    }
}

/// `x` inserted into `s` after every entry that does not come after it.
pub open spec fn insert_text(s: Seq<Seq<char>>, x: Seq<char>) -> Seq<Seq<char>>
    decreases s.len(),
{
    if s.len() == 0 {
        seq![x]
    } else if text_less(x, s.last()) {
        insert_text(s.drop_last(), x).push(s.last())
    } else {
        s.push(x)
    }
}

/// The texts in ascending order (each inserted in turn into the texts before it).
pub open spec fn sort_texts(s: Seq<Seq<char>>) -> Seq<Seq<char>>
    decreases s.len(),
{
    if s.len() == 0 {
        Seq::empty()
    } else {
        insert_text(sort_texts(s.drop_last()), s.last())
    }
}

/// The texts joined with single spaces.
pub open spec fn join_texts(s: Seq<Seq<char>>) -> Seq<char>
    decreases s.len(),
{
    if s.len() == 0 {
        Seq::empty()
    } else if s.len() == 1 {
        s[0]
    } else {
        join_texts(s.drop_last()) + seq![' '] + s.last()
    }
}

/// The coordinate notations of the moves in use, in list order.
pub open spec fn move_texts(l: GameMoveList) -> Seq<Seq<char>> {
    l.moves().map_values(|m: GameMove| uci_text(m))
}

/// Whether `a` comes strictly before `b`.
fn chars_less(a: &Vec<char>, b: &Vec<char>) -> (r: bool)
    ensures
        r == text_less(a@, b@),
{
    let mut i: usize = 0;
    proof {
        assert(a@.skip(0) =~= a@);
        assert(b@.skip(0) =~= b@);
    }
    while i < a.len() && i < b.len()
        invariant
            i <= a@.len(),
            i <= b@.len(),
            text_less(a@.skip(i as int), b@.skip(i as int)) == text_less(a@, b@),
        decreases a@.len() - i,
    {
        proof {
            assert(a@.skip(i as int)[0] == a@[i as int]);
            assert(b@.skip(i as int)[0] == b@[i as int]);
            assert(a@.skip(i as int).drop_first() =~= a@.skip(i + 1));
            assert(b@.skip(i as int).drop_first() =~= b@.skip(i + 1));
        }
        if (a[i] as u32) != (b[i] as u32) {
            return (a[i] as u32) < (b[i] as u32);
        }
        i = i + 1;
    }
    proof {
        assert(a@.skip(i as int).len() == a@.len() - i);
        assert(b@.skip(i as int).len() == b@.len() - i);
    }
    i < b.len()
}

/// Inserting into the first `j` entries and appending the rest gives the insertion into all,
/// when `x` comes before every entry from `j` on.
proof fn lemma_insert_text_split(s: Seq<Seq<char>>, x: Seq<char>, j: int)
    requires
        0 <= j <= s.len(),
        forall|k: int| j <= k < s.len() ==> text_less(x, #[trigger] s[k]),
    ensures
        insert_text(s, x) == insert_text(s.take(j), x) + s.skip(j),
    decreases s.len() - j,
{
    if j == s.len() {
        assert(s.take(j) =~= s);
        assert(s.skip(j) =~= Seq::<Seq<char>>::empty());
        assert(insert_text(s, x) + Seq::<Seq<char>>::empty() =~= insert_text(s, x));
    } else {
        lemma_insert_text_split(s.drop_last(), x, j);
        assert(s.drop_last().take(j) =~= s.take(j));
        assert(insert_text(s, x) == insert_text(s.drop_last(), x).push(s.last()));
        assert(s.drop_last().skip(j).push(s.last()) =~= s.skip(j));
        assert(insert_text(s.take(j), x) + s.drop_last().skip(j).push(s.last()) =~= (insert_text(
            s.take(j),
            x,
        ) + s.drop_last().skip(j)).push(s.last()));
    }
}

/// Inserts `x` into the sorted texts `s` after every entry that does not come after it.
fn insert_chars(s: &mut Vec<Vec<char>>, x: Vec<char>)
    ensures
        final(s)@.map_values(|t: Vec<char>| t@) == insert_text(old(s)@.map_values(|t: Vec<char>| t@), x@),
{
    let ghost v = s@.map_values(|t: Vec<char>| t@);
    let mut j = s.len();
    while j > 0 && chars_less(&x, &s[j - 1])
        invariant
            j <= s@.len(),
            v == s@.map_values(|t: Vec<char>| t@),
            forall|k: int| j <= k < v.len() ==> text_less(x@, #[trigger] v[k]),
        decreases j,
    {
        j = j - 1;
    }
    proof {
        lemma_insert_text_split(v, x@, j as int);
        if j > 0 {
            assert(v.take(j as int).last() == v[j - 1]);
            assert(v.take(j as int).drop_last() =~= v.take(j - 1));
        }
        assert(insert_text(v.take(j as int), x@) =~= v.take(j as int).push(x@));
    }
    s.insert(j, x);
    proof {
        assert(s@.map_values(|t: Vec<char>| t@) =~= v.take(j as int).push(x@) + v.skip(j as int));
    }
}

/// The texts sorted and separated by spaces.
pub fn join_sorted(texts: &Vec<Vec<char>>) -> (s: String)
    ensures
        s@ == join_texts(sort_texts(texts@.map_values(|t: Vec<char>| t@))),
{
    let ghost all_texts = texts@.map_values(|t: Vec<char>| t@);
    let mut sorted: Vec<Vec<char>> = Vec::new();
    let mut i: usize = 0;
    while i < texts.len()
        invariant
            i <= texts@.len(),
            all_texts == texts@.map_values(|t: Vec<char>| t@),
            sorted@.map_values(|t: Vec<char>| t@) == sort_texts(all_texts.take(i as int)),
        decreases texts@.len() - i,
    {
        let chars = texts[i].clone();
        proof {
            assert(all_texts.take(i + 1).drop_last() =~= all_texts.take(i as int));
            assert(all_texts.take(i + 1).last() == chars@);
        }
        insert_chars(&mut sorted, chars);
        i = i + 1;
    }
    proof {
        assert(all_texts.take(i as int) =~= all_texts);
    }
    let ghost all = sorted@.map_values(|t: Vec<char>| t@);
    let mut result = String::new();
    let mut k: usize = 0;
    while k < sorted.len()
        invariant
            k <= sorted@.len(),
            all == sorted@.map_values(|t: Vec<char>| t@),
            result@ == join_texts(all.take(k as int)),
        decreases sorted@.len() - k,
    {
        let ghost before = result@;
        if k > 0 {
            string_push(&mut result, ' ');
        }
        let text = &sorted[k];
        let mut c: usize = 0;
        while c < text.len()
            invariant
                c <= text@.len(),
                text@ == all[k as int],
                result@ == (if k > 0 {
                    before + seq![' ']
                } else {
                    before
                }) + text@.take(c as int),
            decreases text@.len() - c,
        {
            string_push(&mut result, text[c]);
            proof {
                assert(text@.take(c + 1) =~= text@.take(c as int).push(text@[c as int]));
            }
            c = c + 1;
        }
        proof {
            assert(text@.take(c as int) =~= text@);
            assert(all.take(k + 1).drop_last() =~= all.take(k as int));
            if k == 0 {
                assert(before =~= Seq::<char>::empty());
                assert(result@ =~= all.take(1)[0]);
            }
        }
        k = k + 1;
    }
    proof {
        assert(all.take(k as int) =~= all);
    }
    result
}

impl GameMoveList {
    /// The coordinate notations of the moves in use, sorted and separated by spaces (the
    /// text a debugging print of the list shows).
    pub fn move_list_string(&self) -> (s: String)
        requires
            self.wf(),
        ensures
            s@ == join_texts(sort_texts(move_texts(*self))),
    {
        let ghost texts = move_texts(*self);
        let mut all: Vec<Vec<char>> = Vec::new();
        let mut i: usize = 0;
        while i < self.list_len
            invariant
                self.wf(),
                i <= self.list_len,
                texts == move_texts(*self),
                all@.len() == i,
                texts.len() == self.list_len,
                forall|k: int| 0 <= k < i ==> (#[trigger] all@[k])@ == texts[k],
            decreases self.list_len - i,
        {
            let text = self.move_list[i].get_uci_move_string();
            let chars = chars_of(text.as_str());
            proof {
                assert(self.moves()[i as int] == self.move_list@[i as int]);
                assert(texts[i as int] == chars@);
            }
            all.push(chars);
            i = i + 1;
        }
        proof {
            assert(all@.map_values(|t: Vec<char>| t@) =~= texts);
        }
        join_sorted(&all)
    }
}

} // verus!
