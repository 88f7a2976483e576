//! The text of a page as lines: the texts of its text nodes, trimmed, with
//! the empty ones left out.

use crate::text::{copy, push_all, push_text, trim, trimmed, views};
use crate::tokens::{join, joined};
use vstd::prelude::*;

verus! {

/// The texts of `raw`, trimmed, without those that trimming leaves empty.
pub open spec fn clean_lines(raw: Seq<Seq<char>>) -> Seq<Seq<char>>
    decreases raw.len(),
{
    if raw.len() == 0 {
        Seq::empty()
    } else if trimmed(raw.last()).len() > 0 {
        clean_lines(raw.drop_last()).push(trimmed(raw.last()))
    } else {
        clean_lines(raw.drop_last())
    }
}

/// The texts of `raw`, each trimmed.
pub open spec fn trimmed_lines(raw: Seq<Seq<char>>) -> Seq<Seq<char>> {
    Seq::new(raw.len(), |i: int| trimmed(raw[i]))
}

/// The texts of `raw`, one after the other.
pub open spec fn run_together(raw: Seq<Seq<char>>) -> Seq<char>
    decreases raw.len(),
{
    if raw.len() == 0 {
        Seq::empty()
    } else {
        run_together(raw.drop_last()) + raw.last()
    }
}

/// The clean lines of `raw` on one line, a space between each two.
pub open spec fn spaced(raw: Seq<Seq<char>>) -> Seq<char> {
    joined(clean_lines(raw), seq![' '])
}

/// The texts of `raw` run together, then trimmed.
pub open spec fn compact(raw: Seq<Seq<char>>) -> Seq<char> {
    trimmed(run_together(raw))
}

/// The texts trimmed, without those that trimming leaves empty.
pub fn clean(raw: &Vec<Vec<char>>) -> (out: Vec<Vec<char>>)
    ensures
        views(out@) == clean_lines(views(raw@)),
{
    let mut out: Vec<Vec<char>> = Vec::new();
    let mut i: usize = 0;
    assert(views(out@) =~= clean_lines(views(raw@).take(0)));
    while i < raw.len()
        invariant
            i <= raw.len(),
            views(out@) == clean_lines(views(raw@).take(i as int)),
        decreases raw.len() - i,
    {
        proof {
            assert(views(raw@).take(i + 1).drop_last() == views(raw@).take(i as int));
            assert(views(raw@).take(i + 1).last() == raw@[i as int]@);
        }
        let t = trim(&raw[i]);
        if t.len() > 0 {
            let ghost before = views(out@);
            out.push(t);
            assert(views(out@) =~= before.push(t@));
        }
        i += 1;
    }
    proof {
        assert(views(raw@).take(raw.len() as int) == views(raw@));
    }
    out
}

/// The texts, each trimmed.
pub fn trim_each(raw: &Vec<Vec<char>>) -> (out: Vec<Vec<char>>)
    ensures
        views(out@) == trimmed_lines(views(raw@)),
{
    let mut out: Vec<Vec<char>> = Vec::new();
    let mut i: usize = 0;
    while i < raw.len()
        invariant
            i <= raw.len(),
            out@.len() == i,
            forall|j: int| 0 <= j < i ==> (#[trigger] out@[j])@ == trimmed(raw@[j]@),
        decreases raw.len() - i,
    {
        out.push(trim(&raw[i]));
        i += 1;
    }
    assert(views(out@) =~= trimmed_lines(views(raw@)));
    out
}

/// The texts, one after the other.
pub fn run(raw: &Vec<Vec<char>>) -> (out: Vec<char>)
    ensures
        out@ == run_together(views(raw@)),
{
    let mut out: Vec<char> = Vec::new();
    let mut i: usize = 0;
    assert(views(raw@).take(0) =~= Seq::<Seq<char>>::empty());
    while i < raw.len()
        invariant
            i <= raw.len(),
            out@ == run_together(views(raw@).take(i as int)),
        decreases raw.len() - i,
    {
        proof {
            assert(views(raw@).take(i + 1).drop_last() == views(raw@).take(i as int));
            assert(views(raw@).take(i + 1).last() == raw@[i as int]@);
        }
        push_all(&mut out, &raw[i]);
        i += 1;
    }
    proof {
        assert(views(raw@).take(raw.len() as int) == views(raw@));
    }
    out
}

/// The clean lines of `raw` on one line.
pub fn space_out(raw: &Vec<Vec<char>>) -> (out: Vec<char>)
    ensures
        out@ == spaced(views(raw@)),
{
    let mut sep: Vec<char> = Vec::new();
    sep.push(' ');
    assert(sep@ =~= seq![' ']);
    join(&clean(raw), &sep)
}

/// The texts of `raw` run together, then trimmed.
pub fn compact_text(raw: &Vec<Vec<char>>) -> (out: Vec<char>)
    ensures
        out@ == compact(views(raw@)),
{
    trim(&run(raw))
}

/// The texts that are not empty, in order.
pub open spec fn filled(texts: Seq<Seq<char>>) -> Seq<Seq<char>>
    decreases texts.len(),
{
    if texts.len() == 0 {
        Seq::empty()
    } else if texts.last().len() > 0 {
        filled(texts.drop_last()).push(texts.last())
    } else {
        filled(texts.drop_last())
    }
}

/// The texts that are not empty.
pub fn keep_filled(texts: &Vec<Vec<char>>) -> (out: Vec<Vec<char>>)
    ensures
        views(out@) == filled(views(texts@)),
{
    let mut out: Vec<Vec<char>> = Vec::new();
    let mut i: usize = 0;
    assert(views(out@) =~= filled(views(texts@).take(0)));
    while i < texts.len()
        invariant
            i <= texts.len(),
            views(out@) == filled(views(texts@).take(i as int)),
        decreases texts.len() - i,
    {
        proof {
            assert(views(texts@).take(i + 1).drop_last() == views(texts@).take(i as int));
            assert(views(texts@).take(i + 1).last() == texts@[i as int]@);
        }
        if texts[i].len() > 0 {
            push_text(&mut out, copy(&texts[i]));
        }
        i += 1;
    }
    proof {
        assert(views(texts@).take(texts.len() as int) == views(texts@));
    }
    out
}

/// The first text from `i` on that starts with `prefix`.
pub open spec fn first_with_prefix(lines: Seq<Seq<char>>, prefix: Seq<char>, i: int) -> Option<
    Seq<char>,
>
    decreases lines.len() - i,
{
    if i < 0 || i >= lines.len() {
        None
    } else if crate::text::has_prefix(lines[i], prefix) {
        Some(lines[i])
    } else {
        first_with_prefix(lines, prefix, i + 1)
    }
}

/// The first text that starts with `prefix`.
pub fn find_with_prefix(lines: &Vec<Vec<char>>, prefix: &str) -> (r: Option<Vec<char>>)
    ensures
        crate::film::opt_chars(r) == first_with_prefix(views(lines@), prefix@, 0),
{
    let p = crate::text::chars_of(prefix);
    let mut i: usize = 0;
    while i < lines.len()
        invariant
            i <= lines.len(),
            p@ == prefix@,
            first_with_prefix(views(lines@), prefix@, i as int) == first_with_prefix(
                views(lines@),
                prefix@,
                0,
            ),
        decreases lines.len() - i,
    {
        if crate::text::starts_with(&lines[i], &p) {
            return Some(copy(&lines[i]));
        }
        i += 1;
    }
    None
}

} // verus!
