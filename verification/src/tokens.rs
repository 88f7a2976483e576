//! Splitting texts into words and fields, joining and replacing.

use crate::text::{
    find_char, has_prefix, index_of, is_white, last_index_of, lemma_index_of, lemma_last_index_of,
    matches_at, push_all, rfind_char, slice, views, white,
};
use vstd::prelude::*;

verus! {

/// The word that `cur` holds, if it holds any.
pub open spec fn flushed(cur: Seq<char>) -> Seq<Seq<char>> {
    if cur.len() > 0 {
        seq![cur]
    } else {
        Seq::empty()
    }
}

/// The white-space separated words of `cur + s`, where `cur` holds no white space.
pub open spec fn words_from(s: Seq<char>, cur: Seq<char>) -> Seq<Seq<char>>
    decreases s.len(),
{
    if s.len() == 0 {
        flushed(cur)
    } else if white(s[0]) {
        flushed(cur) + words_from(s.drop_first(), Seq::empty())
    } else {
        words_from(s.drop_first(), cur.push(s[0]))
    }
}

/// The maximal runs of characters of `s` that are not white space, in order.
pub open spec fn words(s: Seq<char>) -> Seq<Seq<char>> {
    words_from(s, Seq::empty())
}

/// The texts of `parts` with `sep` between each two neighbours.
pub open spec fn joined(parts: Seq<Seq<char>>, sep: Seq<char>) -> Seq<char>
    decreases parts.len(),
{
    if parts.len() == 0 {
        Seq::empty()
    } else if parts.len() == 1 {
        parts[0]
    } else {
        joined(parts.drop_last(), sep) + sep + parts.last()
    }
}

/// `s` with every occurrence of `from`, taken left to right without
/// overlap, replaced by `to`. An empty `from` replaces nothing.
pub open spec fn replaced(s: Seq<char>, from: Seq<char>, to: Seq<char>) -> Seq<char>
    decreases s.len(),
{
    if from.len() == 0 || s.len() == 0 {
        s
    } else if has_prefix(s, from) {
        to + replaced(s.skip(from.len() as int), from, to)
    } else {
        seq![s[0]] + replaced(s.drop_first(), from, to)
    }
}

/// `s` with its first `from` replaced by `to`; `s` itself if it holds none.
pub open spec fn first_replaced(s: Seq<char>, from: char, to: char) -> Seq<char> {
    match index_of(s, from) {
        Some(i) => s.update(i, to),
        None => s,
    }
}

/// The parts of `s` before and after its first `c`.
pub open spec fn split_at_first(s: Seq<char>, c: char) -> Option<(Seq<char>, Seq<char>)> {
    match index_of(s, c) {
        Some(i) => Some((s.take(i), s.skip(i + 1))),
        None => None,
    }
}

/// The part of `s` before its first `c`; all of `s` if it holds none.
pub open spec fn before_first(s: Seq<char>, c: char) -> Seq<char> {
    match index_of(s, c) {
        Some(i) => s.take(i),
        None => s,
    }
}

/// The part of `s` after its last `c`; all of `s` if it holds none.
pub open spec fn after_last(s: Seq<char>, c: char) -> Seq<char> {
    match last_index_of(s, c) {
        Some(i) => s.skip(i + 1),
        None => s,
    }
}

/// The words of a text.
pub fn split_whitespace(s: &Vec<char>) -> (out: Vec<Vec<char>>)
    ensures
        views(out@) == words(s@),
{
    let mut out: Vec<Vec<char>> = Vec::new();
    let mut cur: Vec<char> = Vec::new();
    let mut i: usize = 0;
    proof {
        assert(s@.skip(0) == s@);
        assert(views(out@) + words_from(s@, cur@) == words(s@));
    }
    while i < s.len()
        invariant
            i <= s.len(),
            views(out@) + words_from(s@.skip(i as int), cur@) == words(s@),
        decreases s.len() - i,
    {
        let c = s[i];
        proof {
            assert(s@.skip(i as int).drop_first() == s@.skip(i + 1));
            assert(s@.skip(i as int)[0] == c);
        }
        if is_white(c) {
            if cur.len() > 0 {
                let ghost before = views(out@);
                let ghost word = cur@;
                out.push(cur);
                cur = Vec::new();
                proof {
                    assert(views(out@) == before + seq![word]);
                    assert(before + (seq![word] + words_from(s@.skip(i + 1), Seq::empty()))
                        == (before + seq![word]) + words_from(s@.skip(i + 1), Seq::empty()));
                }
            } else {
                proof {
                    assert(flushed(cur@) + words_from(s@.skip(i + 1), Seq::empty())
                        == words_from(s@.skip(i + 1), Seq::empty()));
                    assert(cur@ == Seq::<char>::empty());
                }
            }
        } else {
            cur.push(c);
        }
        i += 1;
    }
    if cur.len() > 0 {
        let ghost before = views(out@);
        let ghost word = cur@;
        out.push(cur);
        proof {
            assert(views(out@) == before + seq![word]);
        }
    } else {
        proof {
            assert(views(out@) + Seq::<Seq<char>>::empty() == views(out@));
        }
    }
    out
}

/// The texts with `sep` between each two neighbours.
pub fn join(parts: &Vec<Vec<char>>, sep: &Vec<char>) -> (out: Vec<char>)
    ensures
        out@ == joined(views(parts@), sep@),
{
    let mut out: Vec<char> = Vec::new();
    let mut i: usize = 0;
    while i < parts.len()
        invariant
            i <= parts.len(),
            out@ == joined(views(parts@).take(i as int), sep@),
        decreases parts.len() - i,
    {
        proof {
            assert(views(parts@).take(i + 1).drop_last() == views(parts@).take(i as int));
            assert(views(parts@).take(i + 1).last() == parts@[i as int]@);
        }
        if i > 0 {
            push_all(&mut out, sep);
        }
        push_all(&mut out, &parts[i]);
        proof {
            if i == 0 {
                assert(Seq::<char>::empty() + parts@[0]@ == parts@[0]@);
            }
        }
        i += 1;
    }
    proof {
        assert(views(parts@).take(parts.len() as int) == views(parts@));
    }
    out
}

/// The text with every occurrence of `from` replaced by `to`.
pub fn replace(s: &Vec<char>, from: &Vec<char>, to: &Vec<char>) -> (out: Vec<char>)
    ensures
        out@ == replaced(s@, from@, to@),
{
    let mut out: Vec<char> = Vec::new();
    let mut i: usize = 0;
    proof {
        assert(s@.skip(0) == s@);
        assert(Seq::<char>::empty() + replaced(s@, from@, to@) == replaced(s@, from@, to@));
    }
    while i < s.len()
        invariant
            i <= s.len(),
            out@ + replaced(s@.skip(i as int), from@, to@) == replaced(s@, from@, to@),
        decreases s.len() - i,
    {
        let ghost rest = s@.skip(i as int);
        let ghost done = out@;
        if from.len() > 0 && matches_at(s, from, i) {
            proof {
                assert(rest.subrange(0, from.len() as int) == s@.subrange(i as int, i + from.len()));
                assert(rest.skip(from.len() as int) == s@.skip(i + from.len()));
                assert(done + (to@ + replaced(s@.skip(i + from.len()), from@, to@)) == (done
                    + to@) + replaced(s@.skip(i + from.len()), from@, to@));
            }
            push_all(&mut out, to);
            i += from.len();
        } else {
            proof {
                if from.len() > 0 && i + from.len() <= s.len() {
                    assert(rest.subrange(0, from.len() as int) == s@.subrange(
                        i as int,
                        i + from.len(),
                    ));
                }
                assert(rest.drop_first() == s@.skip(i + 1));
                assert(done + (seq![s@[i as int]] + replaced(s@.skip(i + 1), from@, to@)) == (
                done.push(s@[i as int])) + replaced(s@.skip(i + 1), from@, to@));
            }
            out.push(s[i]);
            i += 1;
        }
    }
    proof {
        assert(out@ + Seq::<char>::empty() == out@);
    }
    out
}

/// The text with its first `from` replaced by `to`.
pub fn replace_first(s: &Vec<char>, from: char, to: char) -> (out: Vec<char>)
    ensures
        out@ == first_replaced(s@, from, to),
{
    let mut out = slice(s, 0, s.len());
    assert(out@ == s@);
    match find_char(s, from) {
        Some(i) => {
            proof {
                lemma_index_of(s@, from);
            }
            out.set(i, to);
        },
        None => {},
    }
    out
}

/// The parts before and after the first `c`.
pub fn split_once(s: &Vec<char>, c: char) -> (r: Option<(Vec<char>, Vec<char>)>)
    ensures
        match r {
            Some((a, b)) => split_at_first(s@, c) == Some((a@, b@)),
            None => split_at_first(s@, c) is None,
        },
{
    match find_char(s, c) {
        Some(i) => {
            proof {
                lemma_index_of(s@, c);
            }
            assert(i < s.len());
            let head = slice(s, 0, i);
            let tail = slice(s, i + 1, s.len());
            Some((head, tail))
        },
        None => None,
    }
}

/// The part of `s` before its first `c`, or a copy of `s`.
pub fn take_before(s: &Vec<char>, c: char) -> (out: Vec<char>)
    ensures
        out@ == before_first(s@, c),
{
    match find_char(s, c) {
        Some(i) => {
            proof {
                lemma_index_of(s@, c);
            }
            slice(s, 0, i)
        },
        None => {
            assert(s@.subrange(0, s.len() as int) == s@);
            slice(s, 0, s.len())
        },
    }
}

/// The part of `s` after its last `c`, or a copy of `s`.
pub fn take_after_last(s: &Vec<char>, c: char) -> (out: Vec<char>)
    ensures
        out@ == after_last(s@, c),
{
    match rfind_char(s, c) {
        Some(i) => {
            proof {
                lemma_last_index_of(s@, c);
            }
            assert(i < s.len());
            slice(s, i + 1, s.len())
        },
        None => {
            assert(s@.subrange(0, s.len() as int) == s@);
            slice(s, 0, s.len())
        },
    }
}

/// The fields of `cur + s` that `sep` separates, where `cur` holds no `sep`.
pub open spec fn fields_from(s: Seq<char>, sep: char, cur: Seq<char>) -> Seq<Seq<char>>
    decreases s.len(),
{
    if s.len() == 0 {
        seq![cur]
    } else if s[0] == sep {
        seq![cur] + fields_from(s.drop_first(), sep, Seq::empty())
    } else {
        fields_from(s.drop_first(), sep, cur.push(s[0]))
    }
}

/// The fields of `s` that `sep` separates: one more than `s` holds separators.
pub open spec fn fields(s: Seq<char>, sep: char) -> Seq<Seq<char>> {
    fields_from(s, sep, Seq::empty())
}

/// The fields that `sep` separates.
pub fn split(s: &Vec<char>, sep: char) -> (out: Vec<Vec<char>>)
    ensures
        views(out@) == fields(s@, sep),
{
    let mut out: Vec<Vec<char>> = Vec::new();
    let mut cur: Vec<char> = Vec::new();
    let mut i: usize = 0;
    proof {
        assert(s@.skip(0) == s@);
        assert(views(out@) + fields_from(s@, sep, cur@) == fields(s@, sep));
    }
    while i < s.len()
        invariant
            i <= s.len(),
            views(out@) + fields_from(s@.skip(i as int), sep, cur@) == fields(s@, sep),
        decreases s.len() - i,
    {
        let c = s[i];
        proof {
            assert(s@.skip(i as int).drop_first() == s@.skip(i + 1));
            assert(s@.skip(i as int)[0] == c);
        }
        if c == sep {
            let ghost before = views(out@);
            let ghost field = cur@;
            out.push(cur);
            cur = Vec::new();
            proof {
                assert(views(out@) == before + seq![field]);
                assert(before + (seq![field] + fields_from(s@.skip(i + 1), sep, Seq::empty()))
                    == (before + seq![field]) + fields_from(s@.skip(i + 1), sep, Seq::empty()));
            }
        } else {
            cur.push(c);
        }
        i += 1;
    }
    let ghost before = views(out@);
    let ghost field = cur@;
    out.push(cur);
    proof {
        assert(views(out@) == before + seq![field]);
    }
    out
}

/// Replacing the first `from` changes exactly that character: the text
/// keeps its length, the first `from` becomes `to`, and every other
/// character stays, later occurrences of `from` included.
pub proof fn lemma_first_replaced(s: Seq<char>, from: char, to: char)
    ensures
        first_replaced(s, from, to).len() == s.len(),
        forall|i: int|
            0 <= i < s.len() ==> #[trigger] first_replaced(s, from, to)[i] == if s[i] == from && (
            forall|j: int| 0 <= j < i ==> s[j] != from) {
                to
            } else {
                s[i]
            },
        !s.contains(from) ==> first_replaced(s, from, to) == s,
{
    lemma_index_of(s, from);
    match index_of(s, from) {
        Some(k) => {
            assert forall|i: int| 0 <= i < s.len() implies #[trigger] first_replaced(
                s,
                from,
                to,
            )[i] == if s[i] == from && (forall|j: int| 0 <= j < i ==> s[j] != from) {
                to
            } else {
                s[i]
            } by {
                if i > k {
                    assert(s[k] == from);
                }
            }
        },
        None => {},
    }
}

/// A text that does not hold `c` is all that stands before its first `c`.
pub proof fn lemma_before_first_whole(s: Seq<char>, c: char)
    requires
        !s.contains(c),
    ensures
        before_first(s, c) == s,
{
    lemma_index_of(s, c);
    if index_of(s, c) is Some {
        let k = index_of(s, c)->0;
        assert(s[k] == c);
        assert(s.contains(c));
    }
}

/// What stands before the first `c` does not depend on what follows a `c`:
/// cutting `a`, a `c` and any `q` gives what cutting `a` gives.
pub proof fn lemma_before_first_cut(a: Seq<char>, c: char, q: Seq<char>)
    ensures
        before_first(a + seq![c] + q, c) == before_first(a, c),
{
    let whole = a + seq![c] + q;
    lemma_index_of(a, c);
    lemma_index_of(whole, c);
    assert(whole[a.len() as int] == c);
    let k = index_of(whole, c)->0;
    match index_of(a, c) {
        Some(i) => {
            assert(whole[i] == a[i]);
            if k < i {
                assert(whole[k] == a[k]);
            }
            assert(k == i);
            assert(whole.take(k) =~= a.take(i));
        },
        None => {
            if k < a.len() {
                assert(whole[k] == a[k]);
            }
            assert(k == a.len());
            assert(whole.take(k) =~= a);
        },
    }
}

} // verus!
