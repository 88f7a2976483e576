//! Picking values out of a list of texts.

use vstd::prelude::*;

verus! {

/// The list that holds `part` if there is one.
pub open spec fn one_if(part: Option<Seq<char>>) -> Seq<Seq<char>> {
    match part {
        Some(p) => seq![p],
        None => Seq::empty(),
    }
}

/// The values that `f` gives for the items of `items`, in order; an item
/// for which it gives none is passed over.
pub open spec fn gathered(
    items: Seq<Seq<char>>,
    f: spec_fn(Seq<char>) -> Option<Seq<char>>,
) -> Seq<Seq<char>>
    decreases items.len(),
{
    if items.len() == 0 {
        Seq::empty()
    } else {
        match f(items.last()) {
            Some(v) => gathered(items.drop_last(), f).push(v),
            None => gathered(items.drop_last(), f),
        }
    }
}

/// The value that `f` gives for the first item for which it gives one.
pub open spec fn first_given(
    items: Seq<Seq<char>>,
    f: spec_fn(Seq<char>) -> Option<Seq<char>>,
) -> Option<Seq<char>>
    decreases items.len(),
{
    if items.len() == 0 {
        None
    } else {
        match f(items[0]) {
            Some(v) => Some(v),
            None => first_given(items.drop_first(), f),
        }
    }
}

/// The first item for which `p` holds.
pub open spec fn first_where(items: Seq<Seq<char>>, p: spec_fn(Seq<char>) -> bool) -> Option<
    Seq<char>,
>
    decreases items.len(),
{
    if items.len() == 0 {
        None
    } else if p(items[0]) {
        Some(items[0])
    } else {
        first_where(items.drop_first(), p)
    }
}

} // verus!
