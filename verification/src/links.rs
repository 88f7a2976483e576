//! Turning the links of a page into absolute addresses.

use crate::text::{concat, has_prefix, slice, starts_with};
use vstd::prelude::*;

verus! {

/// The address that `href` names on the site `origin`: itself where it
/// starts with `http`; below the origin where it starts with a slash; else
/// below the origin with a slash put between.
pub open spec fn absolute(href: Seq<char>, origin: Seq<char>) -> Seq<char> {
    if has_prefix(href, "http"@) {
        href
    } else if has_prefix(href, "/"@) {
        origin + href
    } else {
        origin + "/"@ + href
    }
}

/// The address that `href` names on the site `origin`, for a source whose
/// links always start with a slash: itself where it starts with `http`,
/// else put directly behind the origin.
pub open spec fn prefixed(href: Seq<char>, origin: Seq<char>) -> Seq<char> {
    if has_prefix(href, "http"@) {
        href
    } else {
        origin + href
    }
}

/// The address that `href` names on the site `origin`.
pub fn make_absolute(href: &Vec<char>, origin: &str) -> (out: Vec<char>)
    ensures
        out@ == absolute(href@, origin@),
{
    let base = crate::text::chars_of(origin);
    if starts_with(href, &crate::text::chars_of("http")) {
        assert(href@.subrange(0, href.len() as int) == href@);
        slice(href, 0, href.len())
    } else if starts_with(href, &crate::text::chars_of("/")) {
        concat(&base, href)
    } else {
        concat(&concat(&base, &crate::text::chars_of("/")), href)
    }
}

/// The address that `href` names on a site whose links start with a slash.
pub fn make_prefixed(href: &Vec<char>, origin: &str) -> (out: Vec<char>)
    ensures
        out@ == prefixed(href@, origin@),
{
    let base = crate::text::chars_of(origin);
    if starts_with(href, &crate::text::chars_of("http")) {
        assert(href@.subrange(0, href.len() as int) == href@);
        slice(href, 0, href.len())
    } else {
        concat(&base, href)
    }
}

} // verus!
