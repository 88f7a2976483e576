//! The Berlinale programme: films on sale, each with a page that embeds
//! its data as a script object.

use crate::crawl::{CinemaScraper, Request, RequestView};
use crate::discover::{bare_candidates, bare_films, sort_unique, sorted_set};
use crate::film::{
    join_if_any, joined_if_any, list_if_any, list_if_some, opt_chars, opt_string, opt_view,
    strings_view, Film, FilmView,
};
use crate::gather::{first_given, first_where, gathered};
use crate::json::{
    items_at, items_or_none, json_items, json_items_or_none, json_parses, json_string,
    json_string_or_empty, json_u64, parses, text_at, text_or_empty, u64_at,
};
use crate::lines::{clean, clean_lines};
use crate::links::{absolute, make_absolute, make_prefixed, prefixed};
use crate::merge::first_of;
use crate::number::{leading_digits, parse_u32, parsed_u32};
use crate::page::{
    attr_of, attrs_in, first_line, first_match, scanned, strs_view, texts_in, NodeView, Page,
};
use crate::number::{count_leading_digits, digit_run};
use crate::text::{
    all_digits, any_digit, byte_len, chars_of, concat, contains, copy, ends_with,
    eq_ignore_ascii_case, find, find_char, first_at, has_digit, has_prefix, has_suffix, in_set,
    index_of, is_all_digits, lemma_first_at, lemma_index_of, len_bytes, matches_at, occurs_at,
    occurs_in, push_text, same, same_ignoring_case, slice, starts_with, string_of, strings_of,
    strip_end, stripped_end, trim, trim_end_matches, trimmed, views, without_suffixes,
};
use crate::tokens::{after_last, join, joined, replace, replaced, take_after_last};
use vstd::prelude::*;

verus! {

/// The source of the Berlinale programme.
#[derive(Debug, Clone)]
pub struct BerlinaleScraper {
    pub listing_url: String,
}

impl BerlinaleScraper {
    /// A source that starts from the given listing.
    pub fn new(listing_url: String) -> (scraper: Self)
        ensures
            scraper.listing_url@ == listing_url@,
    {
        BerlinaleScraper { listing_url }
    }
}

/// The festival site's origin.
pub open spec fn origin() -> Seq<char> {
    "https://www.berlinale.de"@
}

/// The number that names a film's page: the last path segment of the
/// address, `.html` and question marks at its end aside.
pub open spec fn page_id(url: Seq<char>) -> Seq<char> {
    after_last(stripped_end(without_suffixes(url, ".html"@), seq!['?'], false), '/')
}

/// The address of a film's page: below `/programme/`, ending in `.html`,
/// and named by a number of six digits or more.
pub open spec fn is_detail(url: Seq<char>) -> bool {
    occurs_in(url, "/programme/"@) && has_suffix(url, ".html"@) && page_id(url).len() >= 6
        && all_digits(page_id(url))
}

fn detail_address(url: &Vec<char>) -> (r: bool)
    ensures
        r == is_detail(url@),
{
    let html = chars_of(".html");
    if !contains(url, &chars_of("/programme/")) || !ends_with(url, &html) {
        return false;
    }
    let mut marks: Vec<char> = Vec::new();
    marks.push('?');
    assert(marks@ =~= seq!['?']);
    let id = take_after_last(&strip_end(&trim_end_matches(url, &html), &marks, false), '/');
    id.len() >= 6 && is_all_digits(&id)
}

/// Whether an address is that of a film's page.
pub fn is_film_detail_url(url: &str) -> (r: bool)
    ensures
        r == is_detail(url@),
{
    detail_address(&chars_of(url))
}

/// The number that follows the needle at index `i`, where it has six
/// digits or more and `.html` or a backslash follows it.
pub open spec fn id_behind(s: Seq<char>, needle: Seq<char>, i: int) -> Option<Seq<char>> {
    let rest = s.skip(i + needle.len());
    let d = digit_run(rest) as int;
    if d >= 6 && (has_prefix(rest.skip(d), ".html"@) || has_prefix(rest.skip(d), "\\"@)) {
        Some(rest.take(d))
    } else {
        None
    }
}

/// The numbers behind the occurrences of the needle from `from` on, the
/// occurrences taken left to right without overlap.
pub open spec fn ids_behind(s: Seq<char>, needle: Seq<char>, from: int) -> Seq<Seq<char>>
    decreases s.len() - from,
{
    if from < 0 || needle.len() == 0 || from + needle.len() > s.len() {
        Seq::empty()
    } else if occurs_at(s, needle, from) {
        match id_behind(s, needle, from) {
            Some(id) => seq![id] + ids_behind(s, needle, from + needle.len()),
            None => ids_behind(s, needle, from + needle.len()),
        }
    } else {
        ids_behind(s, needle, from + 1)
    }
}

/// The nine-digit number that starts with the `2026` at index `i`.
pub open spec fn year_id(s: Seq<char>, i: int) -> Option<Seq<char>> {
    let rest = s.skip(i + 4);
    if rest.len() >= 5 && all_digits(rest.take(5)) {
        Some("2026"@ + rest.take(5))
    } else {
        None
    }
}

/// The nine-digit numbers that start with `2026`, the occurrences of
/// `2026` taken left to right without overlap.
pub open spec fn year_ids(s: Seq<char>, from: int) -> Seq<Seq<char>>
    decreases s.len() - from,
{
    if from < 0 || from + 4 > s.len() {
        Seq::empty()
    } else if occurs_at(s, "2026"@, from) {
        match year_id(s, from) {
            Some(id) => seq![id] + year_ids(s, from + 4),
            None => year_ids(s, from + 4),
        }
    } else {
        year_ids(s, from + 1)
    }
}

/// The film numbers that the raw text of a page shows: those behind
/// `/programme/`, plain or with escaped slashes; failing those, the
/// nine-digit numbers that start with `2026`.
pub open spec fn raw_ids(s: Seq<char>) -> Seq<Seq<char>> {
    let named = ids_behind(s, "/programme/"@, 0) + ids_behind(s, "\\/programme\\/"@, 0);
    if named.len() > 0 {
        named
    } else {
        year_ids(s, 0)
    }
}

/// The address of the page of the film with the given number.
pub open spec fn page_address(id: Seq<char>) -> Seq<char> {
    origin() + "/en/2026/programme/"@ + id + ".html"@
}

/// The addresses of the films that the raw text of a page shows, each
/// once, in ascending order.
pub open spec fn raw_urls(s: Seq<char>) -> Seq<Seq<char>> {
    sorted_set(Seq::new(raw_ids(s).len(), |i: int| page_address(raw_ids(s)[i])))
}

fn read_id(s: &Vec<char>, start: usize) -> (r: Option<Vec<char>>)
    requires
        start <= s.len(),
    ensures
        crate::film::opt_chars(r) == ({
            let rest = s@.skip(start as int);
            let d = digit_run(rest) as int;
            if d >= 6 && (has_prefix(rest.skip(d), ".html"@) || has_prefix(rest.skip(d), "\\"@)) {
                Some(rest.take(d))
            } else {
                None
            }
        }),
{
    let rest = slice(s, start, s.len());
    assert(rest@ == s@.skip(start as int));
    let d = count_leading_digits(&rest);
    if d < 6 {
        return None;
    }
    let tail = slice(&rest, d, rest.len());
    assert(tail@ == rest@.skip(d as int));
    if starts_with(&tail, &chars_of(".html")) || starts_with(&tail, &chars_of("\\")) {
        Some(slice(&rest, 0, d))
    } else {
        None
    }
}

fn scan_ids(s: &Vec<char>, needle: &str) -> (out: Vec<Vec<char>>)
    ensures
        views(out@) == ids_behind(s@, needle@, 0),
{
    let p = chars_of(needle);
    let mut out: Vec<Vec<char>> = Vec::new();
    let mut i: usize = 0;
    proof {
        assert(views(out@) + ids_behind(s@, p@, 0) =~= ids_behind(s@, p@, 0));
    }
    if p.len() == 0 || p.len() > s.len() {
        assert(views(out@) =~= Seq::<Seq<char>>::empty());
        return out;
    }
    while i <= s.len() - p.len()
        invariant
            0 < p.len() <= s.len(),
            p@ == needle@,
            views(out@) + ids_behind(s@, p@, i as int) == ids_behind(s@, p@, 0),
        decreases s.len() - i,
    {
        if matches_at(s, &p, i) {
            let ghost next = ids_behind(s@, p@, i + p.len());
            match read_id(s, i + p.len()) {
                Some(id) => {
                    proof {
                        assert(views(out@) + (seq![id@] + next) =~= views(out@).push(id@) + next);
                    }
                    push_text(&mut out, id);
                },
                None => {},
            }
            i += p.len();
        } else {
            i += 1;
        }
    }
    proof {
        assert(views(out@) + Seq::<Seq<char>>::empty() =~= views(out@));
    }
    out
}

fn scan_year_ids(s: &Vec<char>) -> (out: Vec<Vec<char>>)
    ensures
        views(out@) == year_ids(s@, 0),
{
    let p = chars_of("2026");
    proof {
        reveal_strlit("2026");
    }
    let mut out: Vec<Vec<char>> = Vec::new();
    let mut i: usize = 0;
    proof {
        assert(views(out@) + year_ids(s@, 0) =~= year_ids(s@, 0));
    }
    if s.len() < 4 {
        assert(views(out@) =~= Seq::<Seq<char>>::empty());
        return out;
    }
    while i <= s.len() - 4
        invariant
            4 <= s.len(),
            p@ == "2026"@,
            p@.len() == 4,
            views(out@) + year_ids(s@, i as int) == year_ids(s@, 0),
        decreases s.len() - i,
    {
        if matches_at(s, &p, i) {
            let ghost next = year_ids(s@, i + 4);
            let rest = slice(s, i + 4, s.len());
            assert(rest@ == s@.skip(i + 4));
            if rest.len() >= 5 {
                let five = slice(&rest, 0, 5);
                assert(five@ == rest@.take(5));
                if is_all_digits(&five) {
                    let id = concat(&p, &five);
                    proof {
                        assert(views(out@) + (seq![id@] + next) =~= views(out@).push(id@) + next);
                    }
                    push_text(&mut out, id);
                }
            }
            i += 4;
        } else {
            i += 1;
        }
    }
    proof {
        assert(views(out@) + Seq::<Seq<char>>::empty() =~= views(out@));
    }
    out
}

fn raw_addresses(s: &Vec<char>) -> (out: Vec<Vec<char>>)
    ensures
        views(out@) == raw_urls(s@),
{
    let mut ids = scan_ids(s, "/programme/");
    let ghost plain = views(ids@);
    let mut escaped = scan_ids(s, "\\/programme\\/");
    let ghost more = views(escaped@);
    ids.append(&mut escaped);
    assert(views(ids@) =~= plain + more);
    if ids.len() == 0 {
        ids = scan_year_ids(s);
    }
    assert(views(ids@) == raw_ids(s@));
    let head = concat(&chars_of("https://www.berlinale.de"), &chars_of("/en/2026/programme/"));
    let tail = chars_of(".html");
    let mut urls: Vec<Vec<char>> = Vec::new();
    let mut i: usize = 0;
    while i < ids.len()
        invariant
            i <= ids.len(),
            urls@.len() == i,
            head@ == origin() + "/en/2026/programme/"@,
            tail@ == ".html"@,
            forall|j: int| 0 <= j < i ==> (#[trigger] urls@[j])@ == page_address(ids@[j]@),
        decreases ids.len() - i,
    {
        urls.push(concat(&concat(&head, &ids[i]), &tail));
        i += 1;
    }
    assert(views(urls@) =~= Seq::new(raw_ids(s@).len(), |i: int| page_address(raw_ids(s@)[i])));
    sort_unique(&urls)
}

/// The addresses of the films that the raw text of a page shows.
pub fn extract_film_urls_from_raw(html: &str, _base: &str) -> (urls: Vec<String>)
    ensures
        crate::film::strings_view(urls@) == raw_urls(html@),
{
    let found = raw_addresses(&chars_of(html));
    let urls = strings_of(&found);
    assert(crate::film::strings_view(urls@) =~= views(found@));
    urls
}

/// While an object literal is read: how many braces are open, whether a
/// string is open, whether the next character is escaped, and the quote
/// that opened the string.
pub ghost struct Braces {
    pub depth: nat,
    pub in_string: bool,
    pub escape: bool,
    pub quote: char,
}

/// The length of the object literal at the start of `s[i..]` read on in
/// state `st`: up to and with the brace that closes the first one. Braces
/// inside strings do not count; a string ends at the quote that opened it,
/// unless a backslash stands before.
pub open spec fn object_end(s: Seq<char>, i: int, st: Braces) -> Option<int>
    decreases s.len() - i,
{
    if i < 0 || i >= s.len() {
        None
    } else if st.escape {
        object_end(s, i + 1, Braces { escape: false, ..st })
    } else if st.in_string {
        if s[i] == '\\' {
            object_end(s, i + 1, Braces { escape: true, ..st })
        } else if s[i] == st.quote {
            object_end(s, i + 1, Braces { in_string: false, ..st })
        } else {
            object_end(s, i + 1, st)
        }
    } else if s[i] == '"' || s[i] == '\'' {
        object_end(s, i + 1, Braces { in_string: true, quote: s[i], ..st })
    } else if s[i] == '{' {
        object_end(s, i + 1, Braces { depth: st.depth + 1, ..st })
    } else if s[i] == '}' {
        if st.depth == 1 {
            Some(i + 1)
        } else if st.depth == 0 {
            object_end(s, i + 1, st)
        } else {
            object_end(s, i + 1, Braces { depth: (st.depth - 1) as nat, ..st })
        }
    } else {
        object_end(s, i + 1, st)
    }
}

/// The object literal that follows the first `initial_result:` of a page.
pub open spec fn object_literal(html: Seq<char>) -> Option<Seq<char>> {
    match first_at(html, "initial_result:"@, 0) {
        Some(k) => {
            let after = html.skip(k + 15);
            match index_of(after, '{') {
                Some(o) => match object_end(
                    after.skip(o),
                    0,
                    Braces { depth: 0, in_string: false, escape: false, quote: ' ' },
                ) {
                    Some(n) => Some(after.skip(o).take(n)),
                    None => None,
                },
                None => None,
            }
        },
        None => None,
    }
}

fn read_object(s: &Vec<char>) -> (r: Option<usize>)
    ensures
        match r {
            Some(n) => n <= s.len() && object_end(
                s@,
                0,
                Braces { depth: 0, in_string: false, escape: false, quote: ' ' },
            ) == Some(n as int),
            None => object_end(
                s@,
                0,
                Braces { depth: 0, in_string: false, escape: false, quote: ' ' },
            ) is None,
        },
{
    let mut depth: usize = 0;
    let mut in_string = false;
    let mut escape = false;
    let mut quote = ' ';
    let mut i: usize = 0;
    while i < s.len()
        invariant
            i <= s.len(),
            depth <= i,
            object_end(s@, i as int, Braces { depth: depth as nat, in_string, escape, quote })
                == object_end(
                s@,
                0,
                Braces { depth: 0, in_string: false, escape: false, quote: ' ' },
            ),
        decreases s.len() - i,
    {
        let c = s[i];
        if escape {
            escape = false;
        } else if in_string {
            if c == '\\' {
                escape = true;
            } else if c == quote {
                in_string = false;
            }
        } else if c == '"' || c == '\'' {
            in_string = true;
            quote = c;
        } else if c == '{' {
            depth += 1;
        } else if c == '}' {
            if depth == 1 {
                return Some(i + 1);
            }
            if depth > 0 {
                depth -= 1;
            }
        }
        i += 1;
    }
    None
}

/// The film's data that a page embeds: the object literal that follows
/// its first `initial_result:`, where that literal is a JSON document.
pub open spec fn initial_result(html: Seq<char>) -> Option<Seq<char>> {
    match object_literal(html) {
        Some(text) => json_if(text, json_parses(text)),
        None => None,
    }
}

/// The text, where it is a JSON document.
pub open spec fn json_if(text: Seq<char>, parses: bool) -> Option<Seq<char>> {
    if parses {
        Some(text)
    } else {
        None
    }
}

/// The text, where `parses` says that it is a JSON document.
pub fn keep_if_json(text: String, parses: bool) -> (r: Option<String>)
    ensures
        opt_view(r) == json_if(text@, parses),
{
    if parses {
        Some(text)
    } else {
        None
    }
}

/// The film's data that a page embeds, as JSON text; none where the page
/// embeds none or what it embeds is no JSON document.
pub fn extract_initial_result_json(html: &str) -> (r: Option<String>)
    ensures
        opt_view(r) == initial_result(html@),
{
    match extract_object_literal(html) {
        Some(text) => {
            let valid = parses(text.as_str());
            keep_if_json(text, valid)
        },
        None => None,
    }
}

/// The text of the object literal that follows the first
/// `initial_result:` of a page.
pub fn extract_object_literal(html: &str) -> (r: Option<String>)
    ensures
        opt_view(r) == object_literal(html@),
{
    let page = chars_of(html);
    let needle = chars_of("initial_result:");
    proof {
        reveal_strlit("initial_result:");
    }
    let k = match find(&page, &needle) {
        Some(k) => k,
        None => {
            return None;
        },
    };
    proof {
        lemma_first_at(page@, needle@, 0);
    }
    assert(k + 15 <= page.len());
    let after = slice(&page, k + 15, page.len());
    assert(after@ == page@.skip(k + 15));
    let o = match find_char(&after, '{') {
        Some(o) => o,
        None => {
            return None;
        },
    };
    proof {
        lemma_index_of(after@, '{');
    }
    let object = slice(&after, o, after.len());
    assert(object@ == after@.skip(o as int));
    match read_object(&object) {
        Some(n) => Some(string_of(&slice(&object, 0, n))),
        None => None,
    }
}

/// What is known of a film besides its title and poster.
#[derive(Debug)]
pub struct Facts {
    pub running_time: Option<u32>,
    pub cast: Option<Vec<char>>,
    pub synopsis: Vec<Vec<char>>,
    pub showtimes: Vec<Vec<char>>,
    /// The director, who is named in the title.
    pub director: Option<Vec<char>>,
}

/// The mathematical content of `Facts`.
pub ghost struct FactsView {
    pub running_time: Option<u32>,
    pub cast: Option<Seq<char>>,
    pub synopsis: Seq<Seq<char>>,
    pub showtimes: Seq<Seq<char>>,
    pub director: Option<Seq<char>>,
}

impl View for Facts {
    type V = FactsView;

    open spec fn view(&self) -> FactsView {
        FactsView {
            running_time: self.running_time,
            cast: opt_chars(self.cast),
            synopsis: views(self.synopsis@),
            showtimes: views(self.showtimes@),
            director: opt_chars(self.director),
        }
    }
}

/// Nothing known.
pub open spec fn no_facts() -> FactsView {
    FactsView {
        running_time: None,
        cast: None,
        synopsis: Seq::empty(),
        showtimes: Seq::empty(),
        director: None,
    }
}

/// The low 32 bits of a number.
pub open spec fn low_bits(n: u64) -> u32 {
    (n % 0x1_0000_0000) as u32
}

/// The minutes that the film's data gives: the first entry of `meta`,
/// an apostrophe behind it aside, or the duration of the first event.
pub open spec fn data_minutes(doc: Seq<char>) -> Option<u32> {
    let written = match json_string(doc, "/meta/0"@) {
        Some(s) => parsed_u32(trimmed(stripped_end(s, seq!['\''], false))),
        None => None,
    };
    let timed = match json_u64(doc, "/events/0/time/durationInMinutes"@) {
        Some(n) => Some(low_bits(n)),
        None => None,
    };
    first_of(written, timed)
}

/// The credit of a crew member who directed or wrote: name and function.
pub open spec fn crew_credit(m: Seq<char>) -> Option<Seq<char>> {
    match json_string(m, "/function"@) {
        Some(func) => if func == "Director"@ || func == "Screenplay"@ || same_ignoring_case(
            func,
            "Screenplay based on"@,
        ) {
            match json_string(m, "/names/0/name"@) {
                Some(name) => Some(name + " ("@ + func + ")"@),
                None => None,
            }
        } else {
            None
        },
        None => None,
    }
}

/// The credits of a crew, in order.
pub open spec fn crew_credits(crew: Seq<Seq<char>>) -> Seq<Seq<char>> {
    gathered(crew, |m: Seq<char>| crew_credit(m))
}

/// The names of the members of a list.
pub open spec fn member_names(members: Seq<Seq<char>>) -> Seq<Seq<char>> {
    gathered(members, |m: Seq<char>| json_string(m, "/name"@))
}

/// The crew member is the director.
pub open spec fn directs(m: Seq<char>) -> bool {
    json_string(m, "/function"@) == Some("Director"@)
}

/// The name of a short crew entry that is marked as the director's.
pub open spec fn marked_director(m: Seq<char>) -> Option<Seq<char>> {
    match json_string(m, "/name"@) {
        Some(n) => if has_suffix(n, " (Director)"@) {
            Some(n.take(n.len() - 11))
        } else {
            None
        },
        None => None,
    }
}

/// The director: the name of the first crew member who directs, or else
/// the first short crew entry marked as the director's.
pub open spec fn data_director(doc: Seq<char>) -> Option<Seq<char>> {
    first_of(
        crew_director(json_items_or_none(doc, "/crewMembers"@)),
        short_director(json_items_or_none(doc, "/reducedCrewMembers"@)),
    )
}

/// The credits line: directors and writers by name and function, or else
/// the short crew list; the cast behind it where there is one.
pub open spec fn data_cast(doc: Seq<char>) -> Option<Seq<char>> {
    let credits = crew_credits(json_items_or_none(doc, "/crewMembers"@));
    let by_crew = if credits.len() > 0 {
        Some("by "@ + joined(credits, ", "@))
    } else {
        None
    };
    let by_short = match json_items(doc, "/reducedCrewMembers"@) {
        Some(short) => Some("by "@ + joined(member_names(short), ", "@)),
        None => None,
    };
    match first_of(by_crew, by_short) {
        Some(by_line) => match json_items(doc, "/castMembers"@) {
            Some(cast) => if joined(member_names(cast), ", "@).len() > 0 {
                Some(by_line + " Cast: "@ + joined(member_names(cast), ", "@))
            } else {
                Some(by_line)
            },
            None => Some(by_line),
        },
        None => None,
    }
}

/// The synopsis of the film's data, line breaks for its break tags.
pub open spec fn data_synopsis(doc: Seq<char>) -> Seq<Seq<char>> {
    match json_string(doc, "/synopsis"@) {
        Some(s) => {
            let text = trimmed(replaced(replaced(s, "<br />"@, "\n"@), "<br/>"@, "\n"@));
            if text.len() > 0 {
                seq![text]
            } else {
                Seq::empty()
            }
        },
        None => Seq::empty(),
    }
}

/// The phrase of a screening: weekday, date, time and hall. A screening
/// with neither date nor time gives none.
pub open spec fn event_phrase(e: Seq<char>) -> Option<Seq<char>> {
    let date = json_string_or_empty(e, "/displayDate/dayAndMonth"@);
    let weekday = json_string_or_empty(e, "/displayDate/weekday"@);
    let time = json_string_or_empty(e, "/time/text"@);
    let hall = json_string_or_empty(e, "/venueHall"@);
    if date.len() == 0 && time.len() == 0 {
        None
    } else {
        Some(weekday + " "@ + date + " "@ + time + " - "@ + hall)
    }
}

/// The phrases of a list of screenings, in order.
pub open spec fn event_phrases(events: Seq<Seq<char>>) -> Seq<Seq<char>> {
    gathered(events, |e: Seq<char>| event_phrase(e))
}

/// What the film's data says of it; nothing where the page embeds none.
pub open spec fn data_facts(doc: Option<Seq<char>>) -> FactsView {
    match doc {
        Some(d) => FactsView {
            running_time: data_minutes(d),
            cast: data_cast(d),
            synopsis: data_synopsis(d),
            showtimes: event_phrases(json_items_or_none(d, "/events"@)),
            director: data_director(d),
        },
        None => no_facts(),
    }
}

fn read_minutes(doc: &str) -> (r: Option<u32>)
    ensures
        r == data_minutes(doc@),
{
    let written = match text_at(doc, "/meta/0") {
        Some(s) => {
            let mut mark: Vec<char> = Vec::new();
            mark.push('\'');
            assert(mark@ =~= seq!['\'']);
            parse_u32(&trim(&strip_end(&s, &mark, false)))
        },
        None => None,
    };
    match written {
        Some(_) => written,
        None => match u64_at(doc, "/events/0/time/durationInMinutes") {
            Some(n) => Some((n % 0x1_0000_0000) as u32),
            None => None,
        },
    }
}

fn read_credit(m: &str) -> (r: Option<Vec<char>>)
    ensures
        opt_chars(r) == crew_credit(m@),
{
    match text_at(m, "/function") {
        Some(func) => {
            if same(&func, &chars_of("Director")) || same(&func, &chars_of("Screenplay"))
                || eq_ignore_ascii_case(&func, &chars_of("Screenplay based on")) {
                match text_at(m, "/names/0/name") {
                    Some(name) => Some(
                        concat(&concat(&concat(&name, &chars_of(" (")), &func), &chars_of(")")),
                    ),
                    None => None,
                }
            } else {
                None
            }
        },
        None => None,
    }
}

fn read_credits(crew: &Vec<String>) -> (out: Vec<Vec<char>>)
    ensures
        views(out@) == crew_credits(strings_view(crew@)),
{
    let mut out: Vec<Vec<char>> = Vec::new();
    let mut i: usize = 0;
    assert(views(out@) =~= crew_credits(strings_view(crew@).take(0)));
    while i < crew.len()
        invariant
            i <= crew.len(),
            views(out@) == crew_credits(strings_view(crew@).take(i as int)),
        decreases crew.len() - i,
    {
        proof {
            assert(strings_view(crew@).take(i + 1).drop_last() == strings_view(crew@).take(
                i as int,
            ));
            assert(strings_view(crew@).take(i + 1).last() == crew@[i as int]@);
        }
        match read_credit(crew[i].as_str()) {
            Some(c) => {
                push_text(&mut out, c);
            },
            None => {},
        }
        i += 1;
    }
    proof {
        assert(strings_view(crew@).take(crew.len() as int) == strings_view(crew@));
    }
    out
}

fn read_names(members: &Vec<String>) -> (out: Vec<Vec<char>>)
    ensures
        views(out@) == member_names(strings_view(members@)),
{
    let mut out: Vec<Vec<char>> = Vec::new();
    let mut i: usize = 0;
    assert(views(out@) =~= member_names(strings_view(members@).take(0)));
    while i < members.len()
        invariant
            i <= members.len(),
            views(out@) == member_names(strings_view(members@).take(i as int)),
        decreases members.len() - i,
    {
        proof {
            assert(strings_view(members@).take(i + 1).drop_last() == strings_view(members@).take(
                i as int,
            ));
            assert(strings_view(members@).take(i + 1).last() == members@[i as int]@);
        }
        match text_at(members[i].as_str(), "/name") {
            Some(n) => {
                push_text(&mut out, n);
            },
            None => {},
        }
        i += 1;
    }
    proof {
        assert(strings_view(members@).take(members.len() as int) == strings_view(members@));
    }
    out
}

/// The name of the first crew member who directs.
pub open spec fn crew_director(crew: Seq<Seq<char>>) -> Option<Seq<char>> {
    match first_where(crew, |m: Seq<char>| directs(m)) {
        Some(m) => json_string(m, "/names/0/name"@),
        None => None,
    }
}

/// The first short crew entry marked as the director's.
pub open spec fn short_director(short: Seq<Seq<char>>) -> Option<Seq<char>> {
    first_given(short, |m: Seq<char>| marked_director(m))
}

fn read_crew_director(crew: &Vec<String>) -> (r: Option<Vec<char>>)
    ensures
        opt_chars(r) == crew_director(strings_view(crew@)),
{
    let director = chars_of("Director");
    let mut i: usize = 0;
    proof {
        assert(strings_view(crew@).skip(0) == strings_view(crew@));
    }
    while i < crew.len()
        invariant
            i <= crew.len(),
            director@ == "Director"@,
            first_where(strings_view(crew@).skip(i as int), |m: Seq<char>| directs(m))
                == first_where(strings_view(crew@), |m: Seq<char>| directs(m)),
        decreases crew.len() - i,
    {
        proof {
            assert(strings_view(crew@).skip(i as int).drop_first() == strings_view(crew@).skip(
                i + 1,
            ));
            assert(strings_view(crew@).skip(i as int)[0] == crew@[i as int]@);
        }
        let is_director = match text_at(crew[i].as_str(), "/function") {
            Some(f) => same(&f, &director),
            None => false,
        };
        if is_director {
            return text_at(crew[i].as_str(), "/names/0/name");
        }
        i += 1;
    }
    None
}

fn read_short_director(short: &Vec<String>) -> (r: Option<Vec<char>>)
    ensures
        opt_chars(r) == short_director(strings_view(short@)),
{
    let mark = chars_of(" (Director)");
    proof {
        reveal_strlit(" (Director)");
    }
    let mut k: usize = 0;
    proof {
        assert(strings_view(short@).skip(0) == strings_view(short@));
    }
    while k < short.len()
        invariant
            k <= short.len(),
            mark@ == " (Director)"@,
            mark@.len() == 11,
            first_given(strings_view(short@).skip(k as int), |m: Seq<char>| marked_director(m))
                == first_given(strings_view(short@), |m: Seq<char>| marked_director(m)),
        decreases short.len() - k,
    {
        proof {
            assert(strings_view(short@).skip(k as int).drop_first() == strings_view(short@).skip(
                k + 1,
            ));
            assert(strings_view(short@).skip(k as int)[0] == short@[k as int]@);
        }
        match text_at(short[k].as_str(), "/name") {
            Some(n) => {
                if crate::text::ends_with(&n, &mark) {
                    return Some(slice(&n, 0, n.len() - 11));
                }
            },
            None => {},
        }
        k += 1;
    }
    None
}

fn read_director(doc: &str) -> (r: Option<Vec<char>>)
    ensures
        opt_chars(r) == data_director(doc@),
{
    let named = read_crew_director(&items_or_none(doc, "/crewMembers"));
    match named {
        Some(_) => named,
        None => read_short_director(&items_or_none(doc, "/reducedCrewMembers")),
    }
}

fn read_cast(doc: &str) -> (r: Option<Vec<char>>)
    ensures
        opt_chars(r) == data_cast(doc@),
{
    let by = chars_of("by ");
    let comma = chars_of(", ");
    let credits = read_credits(&items_or_none(doc, "/crewMembers"));
    let by_crew = if credits.len() > 0 {
        Some(concat(&by, &join(&credits, &comma)))
    } else {
        None
    };
    let by_line = match by_crew {
        Some(line) => Some(line),
        None => match items_at(doc, "/reducedCrewMembers") {
            Some(short) => Some(concat(&by, &join(&read_names(&short), &comma))),
            None => None,
        },
    };
    match by_line {
        Some(line) => match items_at(doc, "/castMembers") {
            Some(cast) => {
                let names = join(&read_names(&cast), &comma);
                if names.len() > 0 {
                    Some(concat(&concat(&line, &chars_of(" Cast: ")), &names))
                } else {
                    Some(line)
                }
            },
            None => Some(line),
        },
        None => None,
    }
}

fn read_synopsis(doc: &str) -> (out: Vec<Vec<char>>)
    ensures
        views(out@) == data_synopsis(doc@),
{
    let mut out: Vec<Vec<char>> = Vec::new();
    assert(views(out@) =~= Seq::<Seq<char>>::empty());
    match text_at(doc, "/synopsis") {
        Some(s) => {
            let line = chars_of("\n");
            let text = trim(
                &replace(&replace(&s, &chars_of("<br />"), &line), &chars_of("<br/>"), &line),
            );
            if text.len() > 0 {
                push_text(&mut out, text);
                assert(views(out@) =~= seq![text@]);
            }
        },
        None => {},
    }
    out
}

fn read_event(e: &str) -> (r: Option<Vec<char>>)
    ensures
        opt_chars(r) == event_phrase(e@),
{
    let date = text_or_empty(e, "/displayDate/dayAndMonth");
    let weekday = text_or_empty(e, "/displayDate/weekday");
    let time = text_or_empty(e, "/time/text");
    let hall = text_or_empty(e, "/venueHall");
    if date.len() == 0 && time.len() == 0 {
        None
    } else {
        let space = chars_of(" ");
        let a = concat(&concat(&weekday, &space), &date);
        let b = concat(&concat(&a, &space), &time);
        Some(concat(&concat(&b, &chars_of(" - ")), &hall))
    }
}

fn read_events(events: &Vec<String>) -> (out: Vec<Vec<char>>)
    ensures
        views(out@) == event_phrases(strings_view(events@)),
{
    let mut out: Vec<Vec<char>> = Vec::new();
    let mut i: usize = 0;
    assert(views(out@) =~= event_phrases(strings_view(events@).take(0)));
    while i < events.len()
        invariant
            i <= events.len(),
            views(out@) == event_phrases(strings_view(events@).take(i as int)),
        decreases events.len() - i,
    {
        proof {
            assert(strings_view(events@).take(i + 1).drop_last() == strings_view(events@).take(
                i as int,
            ));
            assert(strings_view(events@).take(i + 1).last() == events@[i as int]@);
        }
        match read_event(events[i].as_str()) {
            Some(p) => {
                push_text(&mut out, p);
            },
            None => {},
        }
        i += 1;
    }
    proof {
        assert(strings_view(events@).take(events.len() as int) == strings_view(events@));
    }
    out
}

/// What the film's data says of it.
pub fn read_facts(doc: &Option<String>) -> (facts: Facts)
    ensures
        facts@ == data_facts(opt_view(*doc)),
{
    match doc {
        Some(d) => Facts {
            running_time: read_minutes(d.as_str()),
            cast: read_cast(d.as_str()),
            synopsis: read_synopsis(d.as_str()),
            showtimes: read_events(&items_or_none(d.as_str(), "/events")),
            director: read_director(d.as_str()),
        },
        None => {
            let facts = Facts {
                running_time: None,
                cast: None,
                synopsis: Vec::new(),
                showtimes: Vec::new(),
                director: None,
            };
            assert(facts@.synopsis =~= Seq::<Seq<char>>::empty());
            assert(facts@.showtimes =~= Seq::<Seq<char>>::empty());
            facts
        },
    }
}

/// The lines of the synopsis that follow its heading: from `from` on, at
/// most `budget` lines are looked at; long lines are taken, unless they
/// are addresses or labels; a line that is neither long nor very short is
/// passed over; a very short line ends the synopsis.
pub open spec fn plot_lines(lines: Seq<Seq<char>>, from: int, budget: nat) -> Seq<Seq<char>>
    decreases budget,
{
    if budget == 0 || from < 0 || from >= lines.len() {
        Seq::empty()
    } else if byte_len(lines[from]) > 50 && !has_prefix(lines[from], "http"@)
        && !same_ignoring_case(lines[from], "Director:"@) && !same_ignoring_case(
        lines[from],
        "Cast:"@,
    ) {
        seq![lines[from]] + plot_lines(lines, from + 1, (budget - 1) as nat)
    } else if byte_len(lines[from]) < 10 {
        Seq::empty()
    } else {
        plot_lines(lines, from + 1, (budget - 1) as nat)
    }
}

/// The line after line `i`, if there is one.
pub open spec fn line_after(lines: Seq<Seq<char>>, i: int) -> Option<Seq<char>> {
    if 0 <= i && i + 1 < lines.len() {
        Some(lines[i + 1])
    } else {
        None
    }
}

/// The minutes that a line gives where none are known yet: the number at
/// the start of a line that speaks of `min`.
pub open spec fn with_minutes(f: FactsView, line: Seq<char>) -> FactsView {
    if f.running_time is None && (occurs_in(line, " min"@) || line == "min"@) && digit_run(line)
        > 0 {
        FactsView { running_time: parsed_u32(line.take(digit_run(line) as int)), ..f }
    } else {
        f
    }
}

/// The director that the line after a director label gives where no cast
/// is known yet.
pub open spec fn with_director(f: FactsView, line: Seq<char>, next: Option<Seq<char>>) -> FactsView {
    if f.cast is None && (same_ignoring_case(line, "Director:"@) || same_ignoring_case(
        line,
        "Regie:"@,
    )) && next is Some {
        FactsView { cast: next, director: next, ..f }
    } else {
        f
    }
}

/// The cast that the line after a cast label adds to a known cast line.
pub open spec fn with_cast(f: FactsView, line: Seq<char>, next: Option<Seq<char>>) -> FactsView {
    if f.cast is Some && same_ignoring_case(line, "Cast:"@) && next is Some {
        FactsView {
            cast: Some(
                if f.cast->0.len() == 0 {
                    next->0
                } else {
                    f.cast->0 + ". "@ + next->0
                },
            ),
            ..f
        }
    } else {
        f
    }
}

/// The synopsis that follows a synopsis heading where none is known yet.
pub open spec fn with_plot(f: FactsView, lines: Seq<Seq<char>>, i: int) -> FactsView {
    if f.synopsis.len() == 0 && (same_ignoring_case(lines[i], "Synopsis"@) || same_ignoring_case(
        lines[i],
        "Plot"@,
    )) {
        FactsView { synopsis: plot_lines(lines, i + 1, 14), ..f }
    } else {
        f
    }
}

/// A line that speaks of screenings and holds a time or a number.
pub open spec fn is_screening(line: Seq<char>) -> bool {
    (occurs_in(line, "Screenings"@) || occurs_in(line, "Februar"@) || occurs_in(
        line,
        "February"@,
    )) && (line.contains(':') || any_digit(line))
}

/// The first screening line, where no showtimes are known yet.
pub open spec fn with_screening(f: FactsView, line: Seq<char>) -> FactsView {
    if f.showtimes.len() == 0 && is_screening(line) {
        FactsView { showtimes: seq![line], ..f }
    } else {
        f
    }
}

/// What is known after line `i` of the page has been read.
pub open spec fn fact_step(f: FactsView, lines: Seq<Seq<char>>, i: int) -> FactsView {
    let next = line_after(lines, i);
    with_screening(
        with_plot(
            with_cast(with_director(with_minutes(f, lines[i]), lines[i], next), lines[i], next),
            lines,
            i,
        ),
        lines[i],
    )
}

/// What is known after the lines from `i` on have been read.
pub open spec fn facts_after(f: FactsView, lines: Seq<Seq<char>>, i: int) -> FactsView
    decreases lines.len() - i,
{
    if i < 0 || i >= lines.len() {
        f
    } else {
        facts_after(fact_step(f, lines, i), lines, i + 1)
    }
}

fn read_plot(lines: &Vec<Vec<char>>, from: usize) -> (out: Vec<Vec<char>>)
    ensures
        views(out@) == plot_lines(views(lines@), from as int, 14),
{
    let http = chars_of("http");
    let director = chars_of("Director:");
    let cast = chars_of("Cast:");
    let mut out: Vec<Vec<char>> = Vec::new();
    let mut k: usize = from;
    let mut budget: usize = 14;
    proof {
        assert(views(out@) + plot_lines(views(lines@), from as int, 14) =~= plot_lines(
            views(lines@),
            from as int,
            14,
        ));
    }
    while budget > 0 && k < lines.len()
        invariant
            http@ == "http"@,
            director@ == "Director:"@,
            cast@ == "Cast:"@,
            views(out@) + plot_lines(views(lines@), k as int, budget as nat) == plot_lines(
                views(lines@),
                from as int,
                14,
            ),
        decreases budget,
    {
        let s = &lines[k];
        let n = len_bytes(s);
        let ghost rest = plot_lines(views(lines@), k + 1, (budget - 1) as nat);
        if n > 50 && !starts_with(s, &http) && !eq_ignore_ascii_case(s, &director)
            && !eq_ignore_ascii_case(s, &cast) {
            proof {
                assert(views(out@) + (seq![s@] + rest) =~= views(out@).push(s@) + rest);
            }
            push_text(&mut out, copy(s));
        } else if n < 10 {
            proof {
                assert(views(out@) + Seq::<Seq<char>>::empty() =~= views(out@));
            }
            return out;
        }
        budget -= 1;
        k += 1;
    }
    proof {
        assert(views(out@) + Seq::<Seq<char>>::empty() =~= views(out@));
    }
    out
}

fn screening_line(line: &Vec<char>) -> (r: bool)
    ensures
        r == is_screening(line@),
{
    (contains(line, &chars_of("Screenings")) || contains(line, &chars_of("Februar")) || contains(
        line,
        &chars_of("February"),
    )) && (in_set(':', line) || has_digit(line))
}

fn read_line(f: Facts, lines: &Vec<Vec<char>>, i: usize) -> (out: Facts)
    requires
        i < lines.len(),
    ensures
        out@ == fact_step(f@, views(lines@), i as int),
{
    let line = &lines[i];
    let mut f = f;
    if f.running_time.is_none() && (contains(line, &chars_of(" min")) || same(
        line,
        &chars_of("min"),
    )) {
        let num = leading_digits(line);
        if num.len() > 0 {
            f.running_time = parse_u32(&num);
        }
    }
    let labelled_director = eq_ignore_ascii_case(line, &chars_of("Director:"))
        || eq_ignore_ascii_case(line, &chars_of("Regie:"));
    if f.cast.is_none() && labelled_director && i + 1 < lines.len() {
        f.cast = Some(copy(&lines[i + 1]));
        f.director = Some(copy(&lines[i + 1]));
    }
    if eq_ignore_ascii_case(line, &chars_of("Cast:")) && i + 1 < lines.len() {
        let joined_cast = match &f.cast {
            Some(existing) => Some(
                if existing.len() == 0 {
                    copy(&lines[i + 1])
                } else {
                    concat(&concat(existing, &chars_of(". ")), &lines[i + 1])
                },
            ),
            None => None,
        };
        if joined_cast.is_some() {
            f.cast = joined_cast;
        }
    }
    if f.synopsis.len() == 0 && (eq_ignore_ascii_case(line, &chars_of("Synopsis"))
        || eq_ignore_ascii_case(line, &chars_of("Plot"))) {
        f.synopsis = read_plot(lines, i + 1);
    }
    if f.showtimes.len() == 0 && screening_line(line) {
        let mut one: Vec<Vec<char>> = Vec::new();
        push_text(&mut one, copy(line));
        assert(views(one@) =~= seq![line@]);
        f.showtimes = one;
    }
    f
}

/// Reads the lines of a page for what the film's data left open.
pub fn read_lines(f: Facts, lines: &Vec<Vec<char>>) -> (out: Facts)
    ensures
        out@ == facts_after(f@, views(lines@), 0),
{
    let ghost start = f@;
    let mut f = f;
    let mut i: usize = 0;
    while i < lines.len()
        invariant
            i <= lines.len(),
            facts_after(f@, views(lines@), i as int) == facts_after(start, views(lines@), 0),
        decreases lines.len() - i,
    {
        f = read_line(f, lines, i);
        i += 1;
    }
    f
}

/// The selectors that the festival's pages are asked: programme links;
/// the title and image that the page declares; its heading; its images.
pub open spec fn selector_list() -> Seq<Seq<char>> {
    seq![
        "a[href*=\"/programme/\"][href$=\".html\"]"@,
        "meta[property=\"og:title\"]"@,
        "h1"@,
        "meta[property=\"og:image\"]"@,
        "img[src*=\"berlinale\"], img[src*=\"programme\"]"@,
    ]
}

/// The attributes that are read: `href`, `content` and `src`.
pub open spec fn name_list() -> Seq<Seq<char>> {
    seq!["href"@, "content"@, "src"@]
}

/// The page that `html` parses to, as this source reads it.
pub open spec fn page_of(html: Seq<char>) -> Seq<NodeView> {
    scanned(html, selector_list(), name_list())
}

/// Parses a page of the site.
pub fn load(html: &str) -> (page: Page)
    ensures
        page@ == page_of(html@),
{
    let selectors = vec![
        "a[href*=\"/programme/\"][href$=\".html\"]",
        "meta[property=\"og:title\"]",
        "h1",
        "meta[property=\"og:image\"]",
        "img[src*=\"berlinale\"], img[src*=\"programme\"]",
    ];
    let names = vec!["href", "content", "src"];
    assert(strs_view(selectors@) =~= selector_list());
    assert(strs_view(names@) =~= name_list());
    Page::parse(html, &selectors, &names)
}

/// The addresses of film pages among the links `hrefs`, in order.
pub open spec fn detail_links(hrefs: Seq<Seq<char>>) -> Seq<Seq<char>>
    decreases hrefs.len(),
{
    if hrefs.len() == 0 {
        Seq::empty()
    } else if is_detail(absolute(trimmed(hrefs.last()), origin())) {
        detail_links(hrefs.drop_last()).push(absolute(trimmed(hrefs.last()), origin()))
    } else {
        detail_links(hrefs.drop_last())
    }
}

/// The addresses to visit for a listing: the film pages that it links
/// to, or else those that its raw text shows; each once, ascending.
pub open spec fn visits_of(html: Seq<char>) -> Seq<Seq<char>> {
    let nodes = page_of(html);
    let linked = detail_links(attrs_in(nodes, 0, 0, 0, nodes.len() as int));
    if linked.len() > 0 {
        sorted_set(linked)
    } else {
        raw_urls(html)
    }
}

fn film_addresses(html: &str) -> (urls: Vec<Vec<char>>)
    ensures
        views(urls@) == visits_of(html@),
{
    let page = load(html);
    let hrefs = page.attr_values(0, 0);
    let mut linked: Vec<Vec<char>> = Vec::new();
    let mut i: usize = 0;
    assert(views(linked@) =~= detail_links(views(hrefs@).take(0)));
    while i < hrefs.len()
        invariant
            i <= hrefs.len(),
            views(linked@) == detail_links(views(hrefs@).take(i as int)),
        decreases hrefs.len() - i,
    {
        proof {
            assert(views(hrefs@).take(i + 1).drop_last() == views(hrefs@).take(i as int));
            assert(views(hrefs@).take(i + 1).last() == hrefs@[i as int]@);
        }
        let full = make_absolute(&trim(&hrefs[i]), "https://www.berlinale.de");
        if detail_address(&full) {
            push_text(&mut linked, full);
        }
        i += 1;
    }
    proof {
        assert(views(hrefs@).take(hrefs.len() as int) == views(hrefs@));
    }
    if linked.len() > 0 {
        sort_unique(&linked)
    } else {
        raw_addresses(&chars_of(html))
    }
}

/// The addresses of the film pages that a listing names.
pub fn extract_film_urls(html: &str, _base_listing_url: &str) -> (urls: Vec<String>)
    ensures
        strings_view(urls@) == visits_of(html@),
{
    let found = film_addresses(html);
    let urls = strings_of(&found);
    assert(strings_view(urls@) =~= views(found@));
    urls
}

/// The title that the page declares.
pub open spec fn declared_title(nodes: Seq<NodeView>) -> Option<Seq<char>> {
    match first_match(nodes, 1, 0, nodes.len() as int) {
        Some(j) => attr_of(nodes, j, 1),
        None => None,
    }
}

/// A title without the festival's name behind it.
pub open spec fn clean_title(t: Seq<char>) -> Seq<char> {
    without_suffixes(without_suffixes(t, " | Berlinale"@), " \u{2013} Berlinale"@)
}

/// The film's title: that of its data, or the one that the page
/// declares, or the page's heading; empty where there is none.
pub open spec fn title_of(doc: Option<Seq<char>>, nodes: Seq<NodeView>) -> Seq<char> {
    let data = match doc {
        Some(d) => json_string(d, "/title"@),
        None => None,
    };
    match first_of(
        first_of(data, declared_title(nodes)),
        first_line(nodes, 2, 0, nodes.len() as int),
    ) {
        Some(t) => clean_title(t),
        None => Seq::empty(),
    }
}

/// The address of a still that is a poster.
pub open spec fn still_poster(still: Seq<char>) -> Option<Seq<char>> {
    match json_string(still, "/media/defaultImage/uri"@) {
        Some(uri) => if occurs_in(uri, "plakate"@) || occurs_in(uri, "poster"@) {
            Some(prefixed(uri, origin()))
        } else {
            None
        },
        None => None,
    }
}

/// The first still that is a poster.
pub open spec fn first_poster(stills: Seq<Seq<char>>) -> Option<Seq<char>> {
    first_given(stills, |s: Seq<char>| still_poster(s))
}

/// The poster that the film's data names: the first still that is one,
/// or else the film's image.
pub open spec fn data_poster(doc: Seq<char>) -> Option<Seq<char>> {
    first_of(
        first_poster(json_items_or_none(doc, "/filmstills"@)),
        match json_string(doc, "/image/default/uri"@) {
            Some(uri) => Some(prefixed(uri, origin())),
            None => None,
        },
    )
}

/// The poster that the page shows: the image that it declares, or else
/// its first image from the festival.
pub open spec fn page_poster(nodes: Seq<NodeView>) -> Option<Seq<char>> {
    let declared = match first_match(nodes, 3, 0, nodes.len() as int) {
        Some(j) => match attr_of(nodes, j, 1) {
            Some(c) => Some(absolute(trimmed(c), origin())),
            None => None,
        },
        None => None,
    };
    let images = attrs_in(nodes, 4, 2, 0, nodes.len() as int);
    first_of(
        declared,
        if images.len() > 0 {
            Some(absolute(trimmed(images[0]), origin()))
        } else {
            None
        },
    )
}

/// The poster of a film: that of its data, or else that of its page.
pub open spec fn poster_of(doc: Option<Seq<char>>, nodes: Seq<NodeView>) -> Option<Seq<char>> {
    first_of(
        match doc {
            Some(d) => data_poster(d),
            None => None,
        },
        page_poster(nodes),
    )
}

/// The facts of a film: those of its data, filled in from the lines of
/// the page where synopsis, cast or showtimes are missing.
pub open spec fn facts_of(doc: Option<Seq<char>>, nodes: Seq<NodeView>) -> FactsView {
    let f = data_facts(doc);
    if f.synopsis.len() == 0 || f.cast is None || f.showtimes.len() == 0 {
        facts_after(f, clean_lines(texts_in(nodes, 0, nodes.len() as int)), 0)
    } else {
        f
    }
}

/// The record that a film page gives; none where it has no title, or
/// only an address for one.
pub open spec fn film_of(url: Seq<char>, html: Seq<char>) -> Option<FilmView> {
    let doc = initial_result(html);
    let nodes = page_of(html);
    let title = title_of(doc, nodes);
    let f = facts_of(doc, nodes);
    if title.len() == 0 || has_prefix(title, "https://"@) {
        None
    } else {
        Some(
            FilmView {
                title: match f.director {
                    Some(d) => trimmed(title) + " by "@ + d,
                    None => title,
                },
                url,
                poster_url: poster_of(doc, nodes),
                cast: f.cast,
                release_date: None,
                running_time: f.running_time,
                synopsis: joined_if_any(f.synopsis, "\n\n"@),
                showtimes: list_if_any(f.showtimes),
            },
        )
    }
}

fn read_title(doc: &Option<String>, page: &Page) -> (title: Vec<char>)
    ensures
        title@ == title_of(opt_view(*doc), page@),
{
    let data = match doc {
        Some(d) => text_at(d.as_str(), "/title"),
        None => None,
    };
    let declared = match data {
        Some(t) => Some(t),
        None => match page.first(1) {
            Some(j) => page.attr(j, 1),
            None => None,
        },
    };
    let found = match declared {
        Some(t) => Some(t),
        None => page.first_line_in_range(2, 0, page.len()),
    };
    match found {
        Some(t) => trim_end_matches(
            &trim_end_matches(&t, &chars_of(" | Berlinale")),
            &chars_of(" \u{2013} Berlinale"),
        ),
        None => Vec::new(),
    }
}

fn read_first_poster(stills: &Vec<String>) -> (r: Option<Vec<char>>)
    ensures
        opt_chars(r) == first_poster(strings_view(stills@)),
{
    let mut i: usize = 0;
    proof {
        assert(strings_view(stills@).skip(0) == strings_view(stills@));
    }
    while i < stills.len()
        invariant
            i <= stills.len(),
            first_poster(strings_view(stills@).skip(i as int)) == first_poster(
                strings_view(stills@),
            ),
        decreases stills.len() - i,
    {
        proof {
            assert(strings_view(stills@).skip(i as int).drop_first() == strings_view(
                stills@,
            ).skip(i + 1));
            assert(strings_view(stills@).skip(i as int)[0] == stills@[i as int]@);
        }
        match text_at(stills[i].as_str(), "/media/defaultImage/uri") {
            Some(uri) => {
                if contains(&uri, &chars_of("plakate")) || contains(&uri, &chars_of("poster")) {
                    return Some(make_prefixed(&uri, "https://www.berlinale.de"));
                }
            },
            None => {},
        }
        i += 1;
    }
    None
}

fn read_poster(doc: &Option<String>, page: &Page) -> (r: Option<Vec<char>>)
    ensures
        opt_chars(r) == poster_of(opt_view(*doc), page@),
{
    let from_data = match doc {
        Some(d) => match read_first_poster(&items_or_none(d.as_str(), "/filmstills")) {
            Some(p) => Some(p),
            None => match text_at(d.as_str(), "/image/default/uri") {
                Some(uri) => Some(make_prefixed(&uri, "https://www.berlinale.de")),
                None => None,
            },
        },
        None => None,
    };
    if from_data.is_some() {
        return from_data;
    }
    let declared = match page.first(3) {
        Some(j) => match page.attr(j, 1) {
            Some(c) => Some(make_absolute(&trim(&c), "https://www.berlinale.de")),
            None => None,
        },
        None => None,
    };
    if declared.is_some() {
        return declared;
    }
    let images = page.attr_values(4, 2);
    if images.len() > 0 {
        Some(make_absolute(&trim(&images[0]), "https://www.berlinale.de"))
    } else {
        None
    }
}

/// Reads a film page.
pub fn film_from_page(url: &str, html: &str) -> (r: Option<Film>)
    ensures
        match r {
            Some(f) => film_of(url@, html@) == Some(f@),
            None => film_of(url@, html@) is None,
        },
{
    let doc = extract_initial_result_json(html);
    let page = load(html);
    let title = read_title(&doc, &page);
    if title.len() == 0 || starts_with(&title, &chars_of("https://")) {
        return None;
    }
    let known = read_facts(&doc);
    let facts = if known.synopsis.len() == 0 || known.cast.is_none() || known.showtimes.len()
        == 0 {
        read_lines(known, &clean(&page.all_texts()))
    } else {
        known
    };
    let display = match &facts.director {
        Some(d) => concat(&concat(&trim(&title), &chars_of(" by ")), d),
        None => title,
    };
    Some(
        Film {
            title: string_of(&display),
            url: url.to_owned(),
            poster_url: opt_string(&read_poster(&doc, &page)),
            cast: opt_string(&facts.cast),
            release_date: None,
            running_time: facts.running_time,
            synopsis: join_if_any(&facts.synopsis, "\n\n"),
            showtimes: list_if_some(&facts.showtimes),
        },
    )
}

impl CinemaScraper for BerlinaleScraper {
    open spec fn listing_request(&self) -> RequestView {
        RequestView::get(self.listing_url@)
    }

    open spec fn planned(&self, body: Seq<char>) -> Seq<FilmView> {
        bare_films(visits_of(body))
    }

    open spec fn visits(&self) -> bool {
        true
    }

    open spec fn followed(&self, page: Seq<char>) -> Seq<Seq<char>> {
        Seq::empty()
    }

    open spec fn completed(
        &self,
        candidate: FilmView,
        page: Option<Seq<char>>,
        inner: Seq<Option<Seq<char>>>,
    ) -> Option<FilmView> {
        match page {
            Some(html) => film_of(candidate.url, html),
            None => None,
        }
    }

    open spec fn feed_path(&self) -> Seq<char> {
        "docs/feeds/berlinale.xml"@
    }

    open spec fn warm_up_request(&self) -> Option<RequestView> {
        None
    }

    fn listing(&self) -> (r: Request) {
        Request::get(self.listing_url.clone())
    }

    fn plan(&self, body: &str) -> (out: Vec<Film>) {
        bare_candidates(&film_addresses(body))
    }

    fn visits_candidates(&self) -> (b: bool) {
        true
    }

    fn follow(&self, page: &str) -> (urls: Vec<String>) {
        let urls: Vec<String> = Vec::new();
        assert(strings_view(urls@) =~= Seq::<Seq<char>>::empty());
        urls
    }

    fn complete(&self, candidate: &Film, page: &Option<String>, inner: &Vec<Option<String>>) -> (r:
        Option<Film>) {
        match page {
            Some(html) => film_from_page(candidate.url.as_str(), html.as_str()),
            None => None,
        }
    }

    fn rss_filename(&self) -> (name: String) {
        "docs/feeds/berlinale.xml".to_owned()
    }

    fn warm_up(&self) -> (r: Option<Request>) {
        None
    }

    proof fn lemma_failed_page_gives_nothing(
        &self,
        candidate: FilmView,
        inner: Seq<Option<Seq<char>>>,
    ) {
    }
}

} // verus!
