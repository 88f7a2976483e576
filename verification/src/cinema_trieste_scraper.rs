//! Cinema Ariston, Trieste (La Cappella Underground).
//!
//! The programme page links to one page per film and showtime: the last
//! path segment of such a link ends in a twelve-digit time stamp. Links
//! that differ only in the stamp count as one film.

use crate::crawl::{CinemaScraper, Request, RequestView};
use crate::discover::{
    bare_candidates, bare_films, candidate_urls, candidates_view, discover, discovered,
    has_candidate, has_key, lemma_discovered, urls_of, Candidate, CandidateView,
};
use crate::order::lex_less;
use crate::film::{
    join_if_any, joined_if_any, list_if_any, list_if_some, opt_string, strings_view, Film,
    FilmView,
};
use crate::lines::{clean, clean_lines, trim_each, trimmed_lines};
use crate::links::{absolute, make_absolute, make_prefixed, prefixed};
use crate::number::{decimal, parse_u32, parsed_u32, u32_to_text};
use crate::page::{
    attr_of, attrs_in, filled_line, first_match, lines_of, matches_in, opt_text, scanned,
    strs_view, subtree_end, texts_below, texts_of, NodeView, Page,
};
use crate::text::{
    all_digits, any_digit, byte_len, chars_of, concat, contains, copy, digit, has_digit,
    has_prefix, holds_text, in_set, is_all_digits, is_digit, last_index_of, lemma_last_index_of,
    len_bytes, occurs_in, prefix_before, push_text, rfind_char, slice, starts_with, string_of,
    strip, strip_end, stripped, stripped_end, take_until, trim, trimmed, views,
};
use crate::tokens::{
    before_first, fields, first_replaced, lemma_before_first_cut, lemma_before_first_whole,
    replace_first, split, split_whitespace, take_before, words,
};
use vstd::prelude::*;

verus! {

/// The site's origin.
pub open spec fn origin() -> Seq<char> {
    "https://www.lacappellaunderground.org"@
}

/// The last path segment ends in a separator and a twelve-digit stamp,
/// behind a name that is not empty.
pub open spec fn stamped(segment: Seq<char>) -> bool {
    segment.len() >= 14 && all_digits(segment.skip(segment.len() - 12)) && (segment[segment.len()
        - 13] == '_' || segment[segment.len() - 13] == '-')
}

/// The key of a path: the path without trailing slashes and without the
/// stamp of its last segment, and one slash behind.
pub open spec fn path_key(path: Seq<char>) -> Seq<char> {
    let u = stripped_end(path, seq!['/'], false);
    match last_index_of(u, '/') {
        Some(i) => if stamped(u.skip(i + 1)) {
            u.take(u.len() - 13) + seq!['/']
        } else {
            u + seq!['/']
        },
        None => u + seq!['/'],
    }
}

/// The key under which an address counts: that of its path, which is what
/// stands before the first question mark. Addresses that differ only in
/// their query, in the stamp of their last segment or in the slashes at
/// the end of their path count as one.
pub open spec fn canonical_key(url: Seq<char>) -> Seq<char> {
    path_key(before_first(url, '?'))
}

/// The canonical key of an address.
pub fn canonical_film_key(url: &str) -> (key: String)
    ensures
        key@ == canonical_key(url@),
{
    crate::text::string_of(&canonical_chars(&chars_of(url)))
}

/// The canonical key of an address, as text.
pub fn canonical_chars(url: &Vec<char>) -> (key: Vec<char>)
    ensures
        key@ == canonical_key(url@),
{
    let mut slash: Vec<char> = Vec::new();
    slash.push('/');
    assert(slash@ =~= seq!['/']);
    let u = strip_end(&take_before(url, '?'), &slash, false);
    match rfind_char(&u, '/') {
        Some(i) => {
            proof {
                lemma_last_index_of(u@, '/');
            }
            assert(i < u.len());
            let segment = slice(&u, i + 1, u.len());
            assert(segment@ == u@.skip(i + 1));
            if segment.len() >= 14 {
                let stamp = slice(&segment, segment.len() - 12, segment.len());
                assert(stamp@ == segment@.skip(segment.len() - 12));
                let mark = segment[segment.len() - 13];
                if is_all_digits(&stamp) && (mark == '_' || mark == '-') {
                    return concat(&slice(&u, 0, u.len() - 13), &slash);
                }
            }
            concat(&u, &slash)
        },
        None => concat(&u, &slash),
    }
}

/// `n` slashes.
pub open spec fn slashes(n: nat) -> Seq<char> {
    Seq::new(n, |i: int| '/')
}

proof fn lemma_strip_slashes(x: Seq<char>, n: nat)
    requires
        x.len() > 0,
        x.last() != '/',
    ensures
        stripped_end(x + slashes(n), seq!['/'], false) == x,
    decreases n,
{
    let set = seq!['/'];
    if n == 0 {
        assert(x + slashes(0) =~= x);
        assert(!set.contains(x.last())) by {
            if set.contains(x.last()) {
                let i = choose|i: int| 0 <= i < set.len() && set[i] == x.last();
                assert(set[i] == '/');
            }
        }
    } else {
        let u = x + slashes(n);
        assert(u.last() == '/');
        assert(set[0] == '/');
        assert(set.contains('/'));
        assert(u.drop_last() =~= x + slashes((n - 1) as nat));
        lemma_strip_slashes(x, (n - 1) as nat);
    }
}

proof fn lemma_last_slash(a: Seq<char>, b: Seq<char>)
    requires
        a.len() > 0,
        a.last() == '/',
        !b.contains('/'),
    ensures
        last_index_of(a + b, '/') == Some(a.len() - 1),
    decreases b.len(),
{
    if b.len() == 0 {
        assert(a + b =~= a);
    } else {
        assert((a + b).last() == b.last());
        assert(b[b.len() - 1] != '/') by {
            if b[b.len() - 1] == '/' {
                assert(b.contains('/'));
            }
        }
        assert((a + b).drop_last() =~= a + b.drop_last());
        assert(!b.drop_last().contains('/')) by {
            if b.drop_last().contains('/') {
                let i = choose|i: int| 0 <= i < b.drop_last().len() && b.drop_last()[i] == '/';
                assert(b[i] == '/');
                assert(b.contains('/'));
            }
        }
        lemma_last_slash(a, b.drop_last());
    }
}

/// The key of an address whose last segment carries a stamp is the address
/// without the stamp: addresses that differ only in their stamps, or in
/// how many slashes stand at their end, have one key.
pub proof fn lemma_key_strips_stamp(
    head: Seq<char>,
    name: Seq<char>,
    mark: char,
    stamp: Seq<char>,
    n: nat,
)
    requires
        head.len() > 0,
        head.last() == '/',
        !head.contains('?'),
        name.len() > 0,
        !name.contains('/'),
        !name.contains('?'),
        mark == '_' || mark == '-',
        stamp.len() == 12,
        all_digits(stamp),
    ensures
        canonical_key(head + name + seq![mark] + stamp + slashes(n)) == head + name + seq!['/'],
{
    let segment = name + seq![mark] + stamp;
    let x = head + name + seq![mark] + stamp;
    let whole = x + slashes(n);
    assert(!whole.contains('?')) by {
        if whole.contains('?') {
            let i = choose|i: int| 0 <= i < whole.len() && whole[i] == '?';
            if i < head.len() {
                assert(head[i] == '?');
                assert(head.contains('?'));
            } else if i < head.len() + name.len() {
                assert(name[i - head.len()] == '?');
                assert(name.contains('?'));
            } else if head.len() + name.len() < i < x.len() {
                assert(crate::text::digit(stamp[i - head.len() - name.len() - 1]));
            }
        }
    }
    lemma_before_first_whole(whole, '?');
    assert(x =~= head + segment);
    assert(crate::text::digit(stamp[11]));
    assert(x.last() == stamp[11]);
    lemma_strip_slashes(x, n);
    assert(!segment.contains('/')) by {
        if segment.contains('/') {
            let i = choose|i: int| 0 <= i < segment.len() && segment[i] == '/';
            if i < name.len() {
                assert(name[i] == '/');
                assert(name.contains('/'));
            } else if i > name.len() {
                assert(crate::text::digit(stamp[i - name.len() - 1]));
            }
        }
    }
    lemma_last_slash(head, segment);
    assert(x.skip(head.len() as int) =~= segment);
    assert(segment.skip(segment.len() - 12) =~= stamp);
    assert(segment[segment.len() - 13] == mark);
    assert(x.take(x.len() - 13) =~= head + name);
}

/// The key of an address does not depend on its query: an address and
/// the same address with a question mark and anything behind it have one key.
pub proof fn lemma_key_ignores_query(address: Seq<char>, query: Seq<char>)
    ensures
        canonical_key(address + seq!['?'] + query) == canonical_key(address),
{
    lemma_before_first_cut(address, '?', query);
}

/// The selectors that the source's pages are asked: film links; the film
/// block; its heading; its poster; the showtime items; lists; paragraphs.
pub open spec fn selector_list() -> Seq<Seq<char>> {
    seq![
        "a[href*=\"/film/\"]"@,
        "#portfolio-single-content"@,
        "h1"@,
        "img[src*=\"wp-content/uploads\"]"@,
        "span.elementor-icon-list-text.elementor-post-info__item, span.elementor-post-info__item--type-custom"@,
        "ul"@,
        "p"@,
    ]
}

/// The attributes that are read: `href` and `src`.
pub open spec fn name_list() -> Seq<Seq<char>> {
    seq!["href"@, "src"@]
}

/// The page that `html` parses to, as this source reads it.
pub open spec fn page_of(html: Seq<char>) -> Seq<NodeView> {
    scanned(html, selector_list(), name_list())
}

/// Parses a page of the site.
pub fn load(html: &str) -> (page: Page)
    ensures
        page@ == page_of(html@),
{
    let selectors = vec![
        "a[href*=\"/film/\"]",
        "#portfolio-single-content",
        "h1",
        "img[src*=\"wp-content/uploads\"]",
        "span.elementor-icon-list-text.elementor-post-info__item, span.elementor-post-info__item--type-custom",
        "ul",
        "p",
    ];
    let names = vec!["href", "src"];
    assert(strs_view(selectors@) =~= selector_list());
    assert(strs_view(names@) =~= name_list());
    Page::parse(html, &selectors, &names)
}

/// The addresses that the programme page links to, in document order.
pub open spec fn links_of(nodes: Seq<NodeView>) -> Seq<Seq<char>> {
    let hrefs = clean_lines(attrs_in(nodes, 0, 0, 0, nodes.len() as int));
    Seq::new(hrefs.len(), |i: int| absolute(hrefs[i], origin()))
}

/// Each address with its canonical key.
pub open spec fn keyed(urls: Seq<Seq<char>>) -> Seq<CandidateView> {
    Seq::new(urls.len(), |i: int| CandidateView { key: canonical_key(urls[i]), url: urls[i] })
}

/// The addresses to visit: one per canonical key, ascending by key.
pub open spec fn visits_of(nodes: Seq<NodeView>) -> Seq<Seq<char>> {
    urls_of(discovered(keyed(links_of(nodes))))
}

/// What a programme page gives to visit: addresses that it links to, in
/// strictly ascending order of their canonical keys, so one for each
/// film; and every link's film is among them. A page that links to N
/// films, however often and under whatever stamps and queries, gives N
/// addresses.
pub proof fn lemma_visits_of(nodes: Seq<NodeView>)
    ensures
        forall|i: int, j: int|
            0 <= i < j < visits_of(nodes).len() ==> lex_less(
                canonical_key(#[trigger] visits_of(nodes)[i]),
                canonical_key(#[trigger] visits_of(nodes)[j]),
            ),
        forall|i: int|
            0 <= i < visits_of(nodes).len() ==> links_of(nodes).contains(
                #[trigger] visits_of(nodes)[i],
            ),
        forall|k: int|
            0 <= k < links_of(nodes).len() ==> exists|i: int|
                0 <= i < visits_of(nodes).len() && canonical_key(#[trigger] visits_of(nodes)[i])
                    == canonical_key(#[trigger] links_of(nodes)[k]),
{
    let links = links_of(nodes);
    let items = keyed(links);
    let found = discovered(items);
    let visits = visits_of(nodes);
    lemma_discovered(items);
    assert forall|i: int| 0 <= i < found.len() implies (#[trigger] found[i]).key == canonical_key(
        found[i].url,
    ) && links.contains(found[i].url) by {
        assert(has_candidate(found, found[i]));
        let k = choose|k: int| 0 <= k < items.len() && #[trigger] items[k] == found[i];
        assert(items[k].url == links[k]);
    }
    assert forall|i: int, j: int| 0 <= i < j < visits.len() implies lex_less(
        canonical_key(#[trigger] visits[i]),
        canonical_key(#[trigger] visits[j]),
    ) by {
        assert(found[i].key == canonical_key(found[i].url));
        assert(found[j].key == canonical_key(found[j].url));
    }
    assert forall|i: int| 0 <= i < visits.len() implies links.contains(#[trigger] visits[i]) by {
        assert(found[i].key == canonical_key(found[i].url));
    }
    assert forall|k: int| 0 <= k < links.len() implies exists|i: int|
        0 <= i < visits.len() && canonical_key(#[trigger] visits[i]) == canonical_key(
            #[trigger] links[k],
        ) by {
        assert(items[k].key == canonical_key(links[k]));
        assert(has_key(items, canonical_key(links[k])));
        assert(has_key(found, canonical_key(links[k])));
        let i = choose|i: int| 0 <= i < found.len() && #[trigger] found[i].key == canonical_key(
            links[k],
        );
        assert(found[i].key == canonical_key(found[i].url));
        assert(visits[i] == found[i].url);
    }
}

/// The addresses to visit for a programme page.
pub fn film_urls(page: &Page) -> (urls: Vec<Vec<char>>)
    ensures
        views(urls@) == visits_of(page@),
{
    let hrefs = clean(&page.attr_values(0, 0));
    let mut items: Vec<Candidate> = Vec::new();
    let mut i: usize = 0;
    while i < hrefs.len()
        invariant
            i <= hrefs.len(),
            items@.len() == i,
            forall|j: int|
                0 <= j < i ==> (#[trigger] items@[j])@ == (CandidateView {
                    key: canonical_key(absolute(hrefs@[j]@, origin())),
                    url: absolute(hrefs@[j]@, origin()),
                }),
        decreases hrefs.len() - i,
    {
        let url = make_absolute(&hrefs[i], "https://www.lacappellaunderground.org");
        items.push(Candidate { key: canonical_chars(&url), url });
        i += 1;
    }
    assert(candidates_view(items@) =~= keyed(links_of(page@)));
    candidate_urls(&discover(&items))
}

/// A line that holds director, country, year and duration: it has a
/// slash and a prime or an apostrophe.
pub open spec fn is_meta(s: Seq<char>) -> bool {
    s.contains('/') && (s.contains('\u{2032}') || s.contains('\''))
}

/// The first meta line.
pub open spec fn meta_line(lines: Seq<Seq<char>>) -> Option<Seq<char>>
    decreases lines.len(),
{
    if lines.len() == 0 {
        None
    } else if is_meta(lines[0]) {
        Some(lines[0])
    } else {
        meta_line(lines.drop_first())
    }
}

/// A comma-separated field that writes a year: four digits.
pub open spec fn is_year(field: Seq<char>) -> bool {
    trimmed(field).len() == 4 && all_digits(trimmed(field))
}

/// The year that the first such field writes.
pub open spec fn year_in(parts: Seq<Seq<char>>) -> Option<u32>
    decreases parts.len(),
{
    if parts.len() == 0 {
        None
    } else if is_year(parts[0]) {
        parsed_u32(trimmed(parts[0]))
    } else {
        year_in(parts.drop_first())
    }
}

/// The minutes of a meta line: the number that the last word before the
/// first prime or apostrophe writes, commas around it aside.
pub open spec fn minutes_in(s: Seq<char>) -> Option<u32> {
    let before = words(prefix_before(s, seq!['\u{2032}', '\'']));
    if before.len() == 0 {
        None
    } else {
        parsed_u32(stripped(before.last(), seq![','], false))
    }
}

/// The first line that names the cast: it starts with `con ` and goes on.
pub open spec fn cast_in(lines: Seq<Seq<char>>) -> Option<Seq<char>>
    decreases lines.len(),
{
    if lines.len() == 0 {
        None
    } else if has_prefix(lines[0], "con "@) && lines[0].len() > 4 {
        Some(trimmed(lines[0].skip(4)))
    } else {
        cast_in(lines.drop_first())
    }
}

fn find_meta(lines: &Vec<Vec<char>>) -> (r: Option<usize>)
    ensures
        match r {
            Some(i) => i < lines@.len() && meta_line(views(lines@)) == Some(lines@[i as int]@),
            None => meta_line(views(lines@)) is None,
        },
{
    let mut marks: Vec<char> = Vec::new();
    marks.push('\u{2032}');
    marks.push('\'');
    let mut i: usize = 0;
    proof {
        assert(views(lines@).skip(0) == views(lines@));
    }
    while i < lines.len()
        invariant
            i <= lines.len(),
            meta_line(views(lines@).skip(i as int)) == meta_line(views(lines@)),
        decreases lines.len() - i,
    {
        proof {
            assert(views(lines@).skip(i as int).drop_first() == views(lines@).skip(i + 1));
            assert(views(lines@).skip(i as int)[0] == lines@[i as int]@);
        }
        let line = &lines[i];
        if in_set('/', line) && (in_set('\u{2032}', line) || in_set('\'', line)) {
            return Some(i);
        }
        i += 1;
    }
    None
}

fn find_year(parts: &Vec<Vec<char>>) -> (r: Option<u32>)
    ensures
        r == year_in(views(parts@)),
{
    let mut i: usize = 0;
    proof {
        assert(views(parts@).skip(0) == views(parts@));
    }
    while i < parts.len()
        invariant
            i <= parts.len(),
            year_in(views(parts@).skip(i as int)) == year_in(views(parts@)),
        decreases parts.len() - i,
    {
        proof {
            assert(views(parts@).skip(i as int).drop_first() == views(parts@).skip(i + 1));
            assert(views(parts@).skip(i as int)[0] == parts@[i as int]@);
        }
        let field = trim(&parts[i]);
        if field.len() == 4 && is_all_digits(&field) {
            return parse_u32(&field);
        }
        i += 1;
    }
    None
}

fn find_minutes(line: &Vec<char>) -> (r: Option<u32>)
    ensures
        r == minutes_in(line@),
{
    let mut marks: Vec<char> = Vec::new();
    marks.push('\u{2032}');
    marks.push('\'');
    assert(marks@ =~= seq!['\u{2032}', '\'']);
    let before = split_whitespace(&take_until(line, &marks));
    if before.len() == 0 {
        None
    } else {
        let mut comma: Vec<char> = Vec::new();
        comma.push(',');
        assert(comma@ =~= seq![',']);
        assert(views(before@).last() == before@[before.len() - 1]@);
        parse_u32(&strip(&before[before.len() - 1], &comma, false))
    }
}

fn find_cast(lines: &Vec<Vec<char>>) -> (r: Option<Vec<char>>)
    ensures
        opt_text(r) == cast_in(views(lines@)),
{
    let con = chars_of("con ");
    let mut i: usize = 0;
    proof {
        assert(views(lines@).skip(0) == views(lines@));
    }
    while i < lines.len()
        invariant
            i <= lines.len(),
            con@ == "con "@,
            cast_in(views(lines@).skip(i as int)) == cast_in(views(lines@)),
        decreases lines.len() - i,
    {
        proof {
            assert(views(lines@).skip(i as int).drop_first() == views(lines@).skip(i + 1));
            assert(views(lines@).skip(i as int)[0] == lines@[i as int]@);
        }
        let line = &lines[i];
        if starts_with(line, &con) && line.len() > 4 {
            return Some(trim(&slice(line, 4, line.len())));
        }
        i += 1;
    }
    None
}

/// The text holds part of an Italian month's name.
pub open spec fn names_month(s: Seq<char>) -> bool {
    occurs_in(s, "braio"@) || occurs_in(s, "enna"@) || occurs_in(s, "arzo"@) || occurs_in(
        s,
        "rile"@,
    ) || occurs_in(s, "aggio"@) || occurs_in(s, "ugno"@) || occurs_in(s, "uglio"@) || occurs_in(
        s,
        "osto"@,
    ) || occurs_in(s, "embre"@) || occurs_in(s, "obre"@)
}

/// A date phrase: it has a digit and names a month.
pub open spec fn is_date(s: Seq<char>) -> bool {
    any_digit(s) && names_month(s)
}

/// A time token: digits, dots and colons only.
pub open spec fn is_clock(s: Seq<char>) -> bool {
    forall|i: int| 0 <= i < s.len() ==> digit(#[trigger] s[i]) || s[i] == '.' || s[i] == ':'
}

/// A time token with its first dot made a colon.
pub open spec fn normalized_time(token: Seq<char>) -> Seq<char> {
    first_replaced(token, '.', ':')
}

/// While showtime items are read: the date that the next times belong
/// to, and the phrases so far.
pub ghost struct Slots {
    pub date: Seq<char>,
    pub phrases: Seq<Seq<char>>,
}

/// The state after one more item. Notes on language and admission are
/// passed over; a time under a date gives a phrase, unless it is there
/// already; a date takes the place of the one before.
pub open spec fn slot_step(st: Slots, text: Seq<char>) -> Slots {
    if text.len() == 0 || has_prefix(text, "v."@) || has_prefix(text, "Ingresso"@) {
        st
    } else if is_clock(text) {
        let phrase = st.date + " ore "@ + normalized_time(text);
        if st.date.len() > 0 && !st.phrases.contains(phrase) {
            Slots { phrases: st.phrases.push(phrase), ..st }
        } else {
            st
        }
    } else if is_date(text) {
        Slots { date: text, ..st }
    } else {
        st
    }
}

/// The state after a run of items.
pub open spec fn slots_after(items: Seq<Seq<char>>, st: Slots) -> Slots
    decreases items.len(),
{
    if items.len() == 0 {
        st
    } else {
        slots_after(items.drop_first(), slot_step(st, items[0]))
    }
}

/// The showtime phrases that a run of items gives.
pub open spec fn phrases_of(items: Seq<Seq<char>>) -> Seq<Seq<char>> {
    slots_after(items, Slots { date: Seq::empty(), phrases: Seq::empty() }).phrases
}

/// One of the items is a date phrase.
pub open spec fn any_date(items: Seq<Seq<char>>) -> bool {
    exists|i: int| 0 <= i < items.len() && is_date(#[trigger] items[i])
}

/// One of the items is a time token.
pub open spec fn any_clock(items: Seq<Seq<char>>) -> bool {
    exists|i: int| 0 <= i < items.len() && is_clock(#[trigger] items[i])
}

/// The phrases of one list: those of the showtime items below it, where
/// one of them is a date and one a time.
pub open spec fn list_phrases(nodes: Seq<NodeView>, ul: int) -> Seq<Seq<char>> {
    let items = clean_lines(
        texts_below(nodes, matches_in(nodes, 4, ul + 1, subtree_end(nodes, ul))),
    );
    if any_date(items) && any_clock(items) {
        phrases_of(items)
    } else {
        Seq::empty()
    }
}

/// The phrases of the first list that gives any.
pub open spec fn first_phrases(nodes: Seq<NodeView>, uls: Seq<int>) -> Seq<Seq<char>>
    decreases uls.len(),
{
    if uls.len() == 0 {
        Seq::empty()
    } else if list_phrases(nodes, uls[0]).len() > 0 {
        list_phrases(nodes, uls[0])
    } else {
        first_phrases(nodes, uls.drop_first())
    }
}

/// The showtimes of a film block: those of its first list that gives
/// any; failing that, those of all its showtime items, each on one line.
pub open spec fn showtimes_of(nodes: Seq<NodeView>, block: int) -> Seq<Seq<char>> {
    let end = subtree_end(nodes, block);
    let scoped = first_phrases(nodes, matches_in(nodes, 5, block + 1, end));
    if scoped.len() > 0 {
        scoped
    } else {
        phrases_of(lines_of(nodes, matches_in(nodes, 4, block + 1, end)))
    }
}

fn month_named(s: &Vec<char>) -> (r: bool)
    ensures
        r == names_month(s@),
{
    contains(s, &chars_of("braio")) || contains(s, &chars_of("enna")) || contains(
        s,
        &chars_of("arzo"),
    ) || contains(s, &chars_of("rile")) || contains(s, &chars_of("aggio")) || contains(
        s,
        &chars_of("ugno"),
    ) || contains(s, &chars_of("uglio")) || contains(s, &chars_of("osto")) || contains(
        s,
        &chars_of("embre"),
    ) || contains(s, &chars_of("obre"))
}

fn date_like(s: &Vec<char>) -> (r: bool)
    ensures
        r == is_date(s@),
{
    has_digit(s) && month_named(s)
}

fn clock_like(s: &Vec<char>) -> (r: bool)
    ensures
        r == is_clock(s@),
{
    let mut i: usize = 0;
    while i < s.len()
        invariant
            i <= s.len(),
            forall|j: int| 0 <= j < i ==> digit(#[trigger] s@[j]) || s@[j] == '.' || s@[j] == ':',
        decreases s.len() - i,
    {
        if !(is_digit(s[i]) || s[i] == '.' || s[i] == ':') {
            return false;
        }
        i += 1;
    }
    true
}

/// A time token with its first dot made a colon.
pub fn normalize_time(token: &Vec<char>) -> (out: Vec<char>)
    ensures
        out@ == normalized_time(token@),
{
    replace_first(token, '.', ':')
}

/// Reads a run of showtime items.
fn read_slots(items: &Vec<Vec<char>>) -> (phrases: Vec<Vec<char>>)
    ensures
        views(phrases@) == phrases_of(views(items@)),
{
    let mut date: Vec<char> = Vec::new();
    let mut phrases: Vec<Vec<char>> = Vec::new();
    let version = chars_of("v.");
    let admission = chars_of("Ingresso");
    let at = chars_of(" ore ");
    let mut i: usize = 0;
    proof {
        assert(views(items@).skip(0) == views(items@));
        assert(views(phrases@) =~= Seq::<Seq<char>>::empty());
    }
    while i < items.len()
        invariant
            i <= items.len(),
            version@ == "v."@,
            admission@ == "Ingresso"@,
            at@ == " ore "@,
            slots_after(
                views(items@).skip(i as int),
                Slots { date: date@, phrases: views(phrases@) },
            ) == slots_after(
                views(items@),
                Slots { date: Seq::empty(), phrases: Seq::empty() },
            ),
        decreases items.len() - i,
    {
        proof {
            assert(views(items@).skip(i as int).drop_first() == views(items@).skip(i + 1));
            assert(views(items@).skip(i as int)[0] == items@[i as int]@);
        }
        let text = &items[i];
        if text.len() == 0 || starts_with(text, &version) || starts_with(text, &admission) {
        } else if clock_like(text) {
            let phrase = concat(&concat(&date, &at), &normalize_time(text));
            if date.len() > 0 && !holds_text(&phrases, &phrase) {
                push_text(&mut phrases, phrase);
            }
        } else if date_like(text) {
            date = copy(text);
        }
        i += 1;
    }
    phrases
}

fn has_date(items: &Vec<Vec<char>>) -> (r: bool)
    ensures
        r == any_date(views(items@)),
{
    let mut i: usize = 0;
    while i < items.len()
        invariant
            i <= items.len(),
            forall|j: int| 0 <= j < i ==> !is_date(#[trigger] views(items@)[j]),
        decreases items.len() - i,
    {
        if date_like(&items[i]) {
            assert(is_date(views(items@)[i as int]));
            return true;
        }
        i += 1;
    }
    false
}

fn has_clock(items: &Vec<Vec<char>>) -> (r: bool)
    ensures
        r == any_clock(views(items@)),
{
    let mut i: usize = 0;
    while i < items.len()
        invariant
            i <= items.len(),
            forall|j: int| 0 <= j < i ==> !is_clock(#[trigger] views(items@)[j]),
        decreases items.len() - i,
    {
        if clock_like(&items[i]) {
            assert(is_clock(views(items@)[i as int]));
            return true;
        }
        i += 1;
    }
    false
}

fn read_list(page: &Page, ul: usize) -> (phrases: Vec<Vec<char>>)
    requires
        ul < page@.len(),
    ensures
        views(phrases@) == list_phrases(page@, ul as int),
{
    let spans = page.select_in(ul, 4);
    let items = clean(&page.texts_under(&spans));
    if has_date(&items) && has_clock(&items) {
        read_slots(&items)
    } else {
        let none: Vec<Vec<char>> = Vec::new();
        assert(views(none@) =~= Seq::<Seq<char>>::empty());
        none
    }
}

/// The showtimes of a film block.
fn read_showtimes(page: &Page, block: usize) -> (phrases: Vec<Vec<char>>)
    requires
        block < page@.len(),
    ensures
        views(phrases@) == showtimes_of(page@, block as int),
{
    let uls = page.select_in(block, 5);
    let ghost all = uls@.map_values(|j: usize| j as int);
    let mut i: usize = 0;
    proof {
        assert(all.skip(0) == all);
    }
    while i < uls.len()
        invariant
            i <= uls.len(),
            block < page@.len(),
            all == uls@.map_values(|j: usize| j as int),
            all == matches_in(page@, 5, block + 1, subtree_end(page@, block as int)),
            forall|k: int| 0 <= k < uls@.len() ==> #[trigger] uls@[k] < page@.len(),
            first_phrases(page@, all.skip(i as int)) == first_phrases(page@, all),
        decreases uls.len() - i,
    {
        proof {
            assert(all.skip(i as int).drop_first() == all.skip(i + 1));
            assert(all.skip(i as int)[0] == uls@[i as int] as int);
        }
        let phrases = read_list(page, uls[i]);
        if phrases.len() > 0 {
            return phrases;
        }
        i += 1;
    }
    let spans = page.select_in(block, 4);
    read_slots(&page.lines(&spans))
}

/// A paragraph at which the synopsis ends.
pub open spec fn ends_synopsis(t: Seq<char>) -> bool {
    t == "Rassegne"@ || t == "In programmazione"@ || has_prefix(t, "Ingresso riservato"@)
}

/// A paragraph that belongs to the synopsis: long enough, and neither the
/// cast line nor the meta line.
pub open spec fn is_prose(t: Seq<char>) -> bool {
    byte_len(t) > 30 && !has_prefix(t, "con "@) && !occurs_in(t, "versione originale"@)
        && !t.contains('\u{2032}')
}

/// The paragraphs of the synopsis: the prose among `texts`, up to the
/// first paragraph that ends it.
pub open spec fn prose_of(texts: Seq<Seq<char>>) -> Seq<Seq<char>>
    decreases texts.len(),
{
    if texts.len() == 0 {
        Seq::empty()
    } else if texts[0].len() == 0 {
        prose_of(texts.drop_first())
    } else if ends_synopsis(texts[0]) {
        Seq::empty()
    } else if is_prose(texts[0]) {
        seq![texts[0]] + prose_of(texts.drop_first())
    } else {
        prose_of(texts.drop_first())
    }
}

fn read_prose(texts: &Vec<Vec<char>>) -> (out: Vec<Vec<char>>)
    ensures
        views(out@) == prose_of(views(texts@)),
{
    let mut out: Vec<Vec<char>> = Vec::new();
    let series = chars_of("Rassegne");
    let showing = chars_of("In programmazione");
    let reserved = chars_of("Ingresso riservato");
    let con = chars_of("con ");
    let version = chars_of("versione originale");
    let mut i: usize = 0;
    proof {
        assert(views(texts@).skip(0) == views(texts@));
        assert(views(out@) + prose_of(views(texts@)) =~= prose_of(views(texts@)));
    }
    while i < texts.len()
        invariant
            i <= texts.len(),
            series@ == "Rassegne"@,
            showing@ == "In programmazione"@,
            reserved@ == "Ingresso riservato"@,
            con@ == "con "@,
            version@ == "versione originale"@,
            views(out@) + prose_of(views(texts@).skip(i as int)) == prose_of(views(texts@)),
        decreases texts.len() - i,
    {
        let ghost rest = views(texts@).skip(i + 1);
        proof {
            assert(views(texts@).skip(i as int).drop_first() == rest);
            assert(views(texts@).skip(i as int)[0] == texts@[i as int]@);
        }
        let t = &texts[i];
        if t.len() == 0 {
        } else if crate::text::same(t, &series) || crate::text::same(t, &showing) || starts_with(
            t,
            &reserved,
        ) {
            proof {
                assert(views(out@) + Seq::<Seq<char>>::empty() =~= views(out@));
            }
            return out;
        } else if len_bytes(t) > 30 && !starts_with(t, &con) && !contains(t, &version) && !in_set(
            '\u{2032}',
            t,
        ) {
            proof {
                assert(views(out@) + (seq![t@] + prose_of(rest)) =~= views(out@).push(t@)
                    + prose_of(rest));
            }
            push_text(&mut out, copy(t));
        }
        i += 1;
    }
    proof {
        assert(views(out@) + Seq::<Seq<char>>::empty() =~= views(out@));
    }
    out
}

/// The year of an optional meta line, written out.
pub open spec fn release_of(meta: Option<Seq<char>>) -> Option<Seq<char>> {
    match meta {
        Some(m) => match year_in(fields(m, ',')) {
            Some(y) => Some(decimal(y as nat)),
            None => None,
        },
        None => None,
    }
}

/// The minutes of an optional meta line.
pub open spec fn duration_of(meta: Option<Seq<char>>) -> Option<u32> {
    match meta {
        Some(m) => minutes_in(m),
        None => None,
    }
}

/// The title of a film: the heading of the film block, where it has one
/// with text in it.
pub open spec fn title_of(nodes: Seq<NodeView>, block: int) -> Option<Seq<char>> {
    filled_line(nodes, 2, block + 1, subtree_end(nodes, block))
}

/// The address of the first uploaded image of the film block.
pub open spec fn poster_of(nodes: Seq<NodeView>, block: int) -> Option<Seq<char>> {
    match first_match(nodes, 3, block + 1, subtree_end(nodes, block)) {
        Some(j) => match attr_of(nodes, j, 1) {
            Some(src) => Some(prefixed(src, origin())),
            None => None,
        },
        None => None,
    }
}

/// The record that a film page gives; none where the page has no film
/// block, or the block no title.
pub open spec fn film_of(url: Seq<char>, nodes: Seq<NodeView>) -> Option<FilmView> {
    match first_match(nodes, 1, 0, nodes.len() as int) {
        None => None,
        Some(block) => {
            let end = subtree_end(nodes, block);
            let lines = trimmed_lines(texts_of(nodes, block));
            match title_of(nodes, block) {
                None => None,
                Some(title) => Some(
                    FilmView {
                        title,
                        url,
                        poster_url: poster_of(nodes, block),
                        cast: cast_in(lines),
                        release_date: release_of(meta_line(lines)),
                        running_time: duration_of(meta_line(lines)),
                        synopsis: joined_if_any(
                            prose_of(lines_of(nodes, matches_in(nodes, 6, block + 1, end))),
                            "\n\n"@,
                        ),
                        showtimes: list_if_any(showtimes_of(nodes, block)),
                    },
                ),
            }
        },
    }
}

/// Reads a film page.
pub fn film_from_page(url: &str, page: &Page) -> (r: Option<Film>)
    ensures
        match r {
            Some(f) => film_of(url@, page@) == Some(f@),
            None => film_of(url@, page@) is None,
        },
{
    let block = match page.first(1) {
        Some(b) => b,
        None => {
            return None;
        },
    };
    let end = page.end_of(block);
    let lines = trim_each(&page.texts(block));
    let title = match page.filled_line_in_range(2, block + 1, end) {
        Some(t) => string_of(&t),
        None => {
            return None;
        },
    };
    let poster_url = match page.first_in_range(3, block + 1, end) {
        Some(j) => match page.attr(j, 1) {
            Some(src) => Some(
                string_of(&make_prefixed(&src, "https://www.lacappellaunderground.org")),
            ),
            None => None,
        },
        None => None,
    };
    let (release_date, running_time) = match find_meta(&lines) {
        Some(m) => {
            let year = match find_year(&split(&lines[m], ',')) {
                Some(y) => Some(string_of(&u32_to_text(y))),
                None => None,
            };
            (year, find_minutes(&lines[m]))
        },
        None => (None, None),
    };
    let paragraphs = page.select_range(6, block + 1, end);
    let synopsis = join_if_any(&read_prose(&page.lines(&paragraphs)), "\n\n");
    let showtimes = list_if_some(&read_showtimes(page, block));
    Some(
        Film {
            title,
            url: url.to_owned(),
            poster_url,
            cast: opt_string(&find_cast(&lines)),
            release_date,
            running_time,
            synopsis,
            showtimes,
        },
    )
}

/// The source of Cinema Ariston's programme.
#[derive(Debug, Clone, Copy)]
pub struct CinemaTriesteScraper {}

impl CinemaTriesteScraper {
    /// The source; its listing is the cinema's programme page.
    pub fn new() -> (scraper: Self)
        ensures
            scraper.listing_request() == RequestView::get(
                "https://www.lacappellaunderground.org/ariston/programma/"@,
            ),
    {
        CinemaTriesteScraper {  }
    }
}

impl CinemaScraper for CinemaTriesteScraper {
    open spec fn listing_request(&self) -> RequestView {
        RequestView::get("https://www.lacappellaunderground.org/ariston/programma/"@)
    }

    open spec fn planned(&self, body: Seq<char>) -> Seq<FilmView> {
        bare_films(visits_of(page_of(body)))
    }

    open spec fn visits(&self) -> bool {
        true
    }

    open spec fn followed(&self, page: Seq<char>) -> Seq<Seq<char>> {
        Seq::empty()
    }

    open spec fn completed(
        &self,
        candidate: FilmView,
        page: Option<Seq<char>>,
        inner: Seq<Option<Seq<char>>>,
    ) -> Option<FilmView> {
        match page {
            Some(html) => film_of(candidate.url, page_of(html)),
            None => None,
        }
    }

    open spec fn feed_path(&self) -> Seq<char> {
        "feed_trieste.xml"@
    }

    open spec fn warm_up_request(&self) -> Option<RequestView> {
        None
    }

    fn listing(&self) -> (r: Request) {
        Request::get("https://www.lacappellaunderground.org/ariston/programma/".to_owned())
    }

    fn plan(&self, body: &str) -> (out: Vec<Film>) {
        bare_candidates(&film_urls(&load(body)))
    }

    fn visits_candidates(&self) -> (b: bool) {
        true
    }

    fn follow(&self, page: &str) -> (urls: Vec<String>) {
        let urls: Vec<String> = Vec::new();
        assert(strings_view(urls@) =~= Seq::<Seq<char>>::empty());
        urls
    }

    fn complete(&self, candidate: &Film, page: &Option<String>, inner: &Vec<Option<String>>) -> (r:
        Option<Film>) {
        match page {
            Some(html) => film_from_page(candidate.url.as_str(), &load(html.as_str())),
            None => None,
        }
    }

    fn rss_filename(&self) -> (name: String) {
        "feed_trieste.xml".to_owned()
    }

    fn warm_up(&self) -> (r: Option<Request>) {
        None
    }

    proof fn lemma_failed_page_gives_nothing(
        &self,
        candidate: FilmView,
        inner: Seq<Option<Seq<char>>>,
    ) {
    }
}

} // verus!
