//! The film record that every source produces.

use crate::text::{chars_of, string_of, strings_of, views};
use crate::tokens::{join, joined};
use vstd::prelude::*;

verus! {

/// One programme entry of one venue.
#[derive(Debug, Clone)]
pub struct Film {
    /// Display name; never empty in a record that a source emits.
    pub title: String,
    /// Detail-page address; the record's identity within one run.
    pub url: String,
    pub poster_url: Option<String>,
    /// Free-form credits, as the source words them.
    pub cast: Option<String>,
    /// Free-form date: a year or a date phrase.
    pub release_date: Option<String>,
    /// Minutes.
    pub running_time: Option<u32>,
    /// Paragraphs, joined by blank lines.
    pub synopsis: Option<String>,
    /// Ready-made "day and time" phrases, in the order they were found.
    pub showtimes: Option<Vec<String>>,
}

/// The mathematical content of a `Film`.
pub ghost struct FilmView {
    pub title: Seq<char>,
    pub url: Seq<char>,
    pub poster_url: Option<Seq<char>>,
    pub cast: Option<Seq<char>>,
    pub release_date: Option<Seq<char>>,
    pub running_time: Option<u32>,
    pub synopsis: Option<Seq<char>>,
    pub showtimes: Option<Seq<Seq<char>>>,
}

/// The contents of a list of strings.
pub open spec fn strings_view(v: Seq<String>) -> Seq<Seq<char>> {
    Seq::new(v.len(), |i: int| v[i]@)
}

/// The content of an optional string.
pub open spec fn opt_view(o: Option<String>) -> Option<Seq<char>> {
    match o {
        Some(s) => Some(s@),
        None => None,
    }
}

/// The contents of an optional list of strings.
pub open spec fn opt_strings_view(o: Option<Vec<String>>) -> Option<Seq<Seq<char>>> {
    match o {
        Some(v) => Some(strings_view(v@)),
        None => None,
    }
}

/// The contents of a list of films.
pub open spec fn films_view(v: Seq<Film>) -> Seq<FilmView> {
    Seq::new(v.len(), |i: int| v[i]@)
}

impl View for Film {
    type V = FilmView;

    open spec fn view(&self) -> FilmView {
        FilmView {
            title: self.title@,
            url: self.url@,
            poster_url: opt_view(self.poster_url),
            cast: opt_view(self.cast),
            release_date: opt_view(self.release_date),
            running_time: self.running_time,
            synopsis: opt_view(self.synopsis),
            showtimes: opt_strings_view(self.showtimes),
        }
    }
}

impl FilmView {
    /// A record may be emitted only with a title and an address.
    pub open spec fn emittable(self) -> bool {
        self.title.len() > 0 && self.url.len() > 0
    }

    /// The record that carries only a title and an address.
    pub open spec fn bare(title: Seq<char>, url: Seq<char>) -> FilmView {
        FilmView {
            title,
            url,
            poster_url: None,
            cast: None,
            release_date: None,
            running_time: None,
            synopsis: None,
            showtimes: None,
        }
    }
}

impl Film {
    /// A record with a title and an address and nothing else.
    pub fn bare(title: String, url: String) -> (film: Film)
        ensures
            film@ == FilmView::bare(title@, url@),
    {
        Film {
            title,
            url,
            poster_url: None,
            cast: None,
            release_date: None,
            running_time: None,
            synopsis: None,
            showtimes: None,
        }
    }

    /// A copy of the record.
    pub fn duplicate(&self) -> (film: Film)
        ensures
            film@ == self@,
    {
        Film {
            title: self.title.clone(),
            url: self.url.clone(),
            poster_url: copy_opt(&self.poster_url),
            cast: copy_opt(&self.cast),
            release_date: copy_opt(&self.release_date),
            running_time: self.running_time,
            synopsis: copy_opt(&self.synopsis),
            showtimes: match &self.showtimes {
                Some(v) => Some(copy_strings(v)),
                None => None,
            },
        }
    }
}

/// A copy of an optional string.
pub fn copy_opt(o: &Option<String>) -> (out: Option<String>)
    ensures
        opt_view(out) == opt_view(*o),
{
    match o {
        Some(s) => Some(s.clone()),
        None => None,
    }
}

/// A copy of a list of strings.
pub fn copy_strings(v: &Vec<String>) -> (out: Vec<String>)
    ensures
        strings_view(out@) == strings_view(v@),
{
    let mut out: Vec<String> = Vec::new();
    let mut i: usize = 0;
    while i < v.len()
        invariant
            i <= v.len(),
            out@.len() == i,
            strings_view(out@) == strings_view(v@).take(i as int),
        decreases v.len() - i,
    {
        let ghost prev = out@;
        out.push(v[i].clone());
        proof {
            assert forall|j: int| 0 <= j < i + 1 implies strings_view(out@)[j] == strings_view(
                v@,
            ).take(i + 1)[j] by {
                if j < i {
                    assert(strings_view(prev)[j] == strings_view(v@).take(i as int)[j]);
                }
            }
            assert(strings_view(out@) =~= strings_view(v@).take(i + 1));
        }
        i += 1;
    }
    proof {
        assert(strings_view(v@).take(v.len() as int) == strings_view(v@));
    }
    out
}

/// The parts joined by `sep`, where there is any part.
pub open spec fn joined_if_any(parts: Seq<Seq<char>>, sep: Seq<char>) -> Option<Seq<char>> {
    if parts.len() == 0 {
        None
    } else {
        Some(joined(parts, sep))
    }
}

/// The list, where it holds anything.
pub open spec fn list_if_any(list: Seq<Seq<char>>) -> Option<Seq<Seq<char>>> {
    if list.len() == 0 {
        None
    } else {
        Some(list)
    }
}

/// The text, where it is not empty.
pub open spec fn text_if_any(s: Seq<char>) -> Option<Seq<char>> {
    if s.len() == 0 {
        None
    } else {
        Some(s)
    }
}

/// The content of an optional text.
pub open spec fn opt_chars(o: Option<Vec<char>>) -> Option<Seq<char>> {
    match o {
        Some(s) => Some(s@),
        None => None,
    }
}

/// The parts joined by `sep`, where there is any part.
pub fn join_if_any(parts: &Vec<Vec<char>>, sep: &str) -> (r: Option<String>)
    ensures
        opt_view(r) == joined_if_any(views(parts@), sep@),
{
    if parts.len() == 0 {
        None
    } else {
        Some(string_of(&join(parts, &chars_of(sep))))
    }
}

/// The list as strings, where it holds anything.
pub fn list_if_some(list: &Vec<Vec<char>>) -> (r: Option<Vec<String>>)
    ensures
        opt_strings_view(r) == list_if_any(views(list@)),
{
    if list.len() == 0 {
        None
    } else {
        let out = strings_of(list);
        assert(strings_view(out@) =~= views(list@));
        Some(out)
    }
}

/// The text as a string, where it is not empty.
pub fn text_if_some(s: &Vec<char>) -> (r: Option<String>)
    ensures
        opt_view(r) == text_if_any(s@),
{
    if s.len() == 0 {
        None
    } else {
        Some(string_of(s))
    }
}

/// The string of an optional text.
pub fn opt_string(o: &Option<Vec<char>>) -> (r: Option<String>)
    ensures
        opt_view(r) == opt_chars(*o),
{
    match o {
        Some(s) => Some(string_of(s)),
        None => None,
    }
}

} // verus!
