//! Cinergia, Conegliano, on the 18tickets platform.

use crate::crawl::{CinemaScraper, Request, RequestView};
use crate::discover::{lemma_sorted_set, sort_unique, sorted_set};
use crate::order::lex_less;
use crate::film::{
    films_view, join_if_any, joined_if_any, list_if_any, list_if_some, opt_chars, opt_string,
    opt_view, strings_view, Film, FilmView,
};
use crate::lines::{clean, clean_lines};
use crate::merge::first_of;
use crate::number::{count_leading_digits, digit_run, lemma_digit_run, parse_u32, parsed_u32};
use crate::page::{
    attr_of, attrs_in, first_match, lines_of, matches_in, scanned, strs_view, texts_in, NodeView,
    Page,
};
use crate::text::{
    all_digits, byte_len, chars_of, concat, contains, copy, eq_ignore_ascii_case, find,
    first_at, has_prefix, in_set, is_all_digits, lemma_first_at, len_bytes, matches_at,
    occurs_at, occurs_in, push_text, same_ignoring_case, slice, starts_with, string_of,
    strings_of, strip_end, strip_start, stripped_end, stripped_start, trim,
    trim_start_matches, trimmed, views, without_prefixes,
};
use crate::tokens::{
    before_first, fields, lemma_before_first_cut, split, split_whitespace, take_before, words,
};
use vstd::prelude::*;

verus! {

/// The site's address without the slashes at its end.
pub open spec fn site_of(base_url: Seq<char>) -> Seq<char> {
    stripped_end(base_url, seq!['/'], false)
}

/// The source of Cinergia's programme.
#[derive(Debug, Clone)]
pub struct CinergiaConeglianoScraper {
    /// The site's address, without a slash at its end.
    pub base_url: String,
    /// The day whose showtimes the film pages are asked for, as
    /// `YYYY-MM-DD`.
    pub ref_date: String,
}

impl CinergiaConeglianoScraper {
    /// A source for the site at the given address; no day is asked for yet.
    pub fn new(base_url: String) -> (scraper: Self)
        ensures
            scraper.base_url@ == site_of(base_url@),
            scraper.ref_date@ == Seq::<char>::empty(),
    {
        let mut slash: Vec<char> = Vec::new();
        slash.push('/');
        assert(slash@ =~= seq!['/']);
        CinergiaConeglianoScraper {
            base_url: string_of(&strip_end(&chars_of(base_url.as_str()), &slash, false)),
            ref_date: String::new(),
        }
    }

    /// The same source, asking for the showtimes of the given day.
    pub fn on(self, ref_date: String) -> (scraper: Self)
        ensures
            scraper.base_url@ == self.base_url@,
            scraper.ref_date@ == ref_date@,
    {
        CinergiaConeglianoScraper { base_url: self.base_url, ref_date }
    }
}

/// The film numbers that the raw text of a page shows from index `from`
/// on: the digits behind each `/film/`, the occurrences taken left to
/// right without overlap.
pub open spec fn raw_ids(s: Seq<char>, from: int) -> Seq<Seq<char>>
    decreases s.len() - from,
{
    if from < 0 || from + 6 > s.len() {
        Seq::empty()
    } else if occurs_at(s, "/film/"@, from) {
        let rest = s.skip(from + 6);
        if digit_run(rest) > 0 {
            seq![rest.take(digit_run(rest) as int)] + raw_ids(s, from + 6)
        } else {
            raw_ids(s, from + 6)
        }
    } else {
        raw_ids(s, from + 1)
    }
}

fn scan_raw_ids(s: &Vec<char>) -> (out: Vec<Vec<char>>)
    ensures
        views(out@) == raw_ids(s@, 0),
{
    let p = chars_of("/film/");
    proof {
        reveal_strlit("/film/");
    }
    let mut out: Vec<Vec<char>> = Vec::new();
    let mut i: usize = 0;
    proof {
        assert(views(out@) + raw_ids(s@, 0) =~= raw_ids(s@, 0));
    }
    if s.len() < 6 {
        assert(views(out@) =~= Seq::<Seq<char>>::empty());
        return out;
    }
    while i <= s.len() - 6
        invariant
            6 <= s.len(),
            p@ == "/film/"@,
            p@.len() == 6,
            views(out@) + raw_ids(s@, i as int) == raw_ids(s@, 0),
        decreases s.len() - i,
    {
        if matches_at(s, &p, i) {
            let ghost next = raw_ids(s@, i + 6);
            let rest = slice(s, i + 6, s.len());
            assert(rest@ == s@.skip(i + 6));
            let d = count_leading_digits(&rest);
            if d > 0 {
                let id = slice(&rest, 0, d);
                proof {
                    assert(views(out@) + (seq![id@] + next) =~= views(out@).push(id@) + next);
                }
                push_text(&mut out, id);
            }
            i += 6;
        } else {
            i += 1;
        }
    }
    proof {
        assert(views(out@) + Seq::<Seq<char>>::empty() =~= views(out@));
    }
    out
}

/// The film numbers that the raw text of a page shows, each once, ascending.
pub fn extract_film_ids_from_raw(html: &str) -> (ids: Vec<String>)
    ensures
        strings_view(ids@) == sorted_set(raw_ids(html@, 0)),
{
    let found = sort_unique(&scan_raw_ids(&chars_of(html)));
    let ids = strings_of(&found);
    assert(strings_view(ids@) =~= views(found@));
    ids
}

/// The selectors that the site's pages are asked: film links; headings;
/// the image that the page declares; images.
pub open spec fn selector_list() -> Seq<Seq<char>> {
    seq![
        "a[href*=\"/film/\"]"@,
        "h1, h2, h3, h4, h5, h6"@,
        "meta[property=\"og:image\"]"@,
        "img[src]"@,
    ]
}

/// The attributes that are read: `href`, `content` and `src`.
pub open spec fn name_list() -> Seq<Seq<char>> {
    seq!["href"@, "content"@, "src"@]
}

/// The page that `html` parses to, as this source reads it.
pub open spec fn page_of(html: Seq<char>) -> Seq<NodeView> {
    scanned(html, selector_list(), name_list())
}

/// Parses a page of the site.
pub fn load(html: &str) -> (page: Page)
    ensures
        page@ == page_of(html@),
{
    let selectors = vec![
        "a[href*=\"/film/\"]",
        "h1, h2, h3, h4, h5, h6",
        "meta[property=\"og:image\"]",
        "img[src]",
    ];
    let names = vec!["href", "content", "src"];
    assert(strs_view(selectors@) =~= selector_list());
    assert(strs_view(names@) =~= name_list());
    Page::parse(html, &selectors, &names)
}

/// The film number that a link names: what stands behind `/film/` in its
/// path, up to the next slash, if that is a number.
pub open spec fn linked_id(href: Seq<char>) -> Option<Seq<char>> {
    let path = before_first(trimmed(href), '?');
    let rest = if has_prefix(path, "/film/"@) {
        Some(without_prefixes(path, "/film/"@))
    } else {
        match first_at(path, "/film/"@, 0) {
            Some(i) => Some(path.skip(i + 6)),
            None => None,
        }
    };
    match rest {
        Some(r) => {
            let id = before_first(r, '/');
            if id.len() > 0 && all_digits(id) {
                Some(id)
            } else {
                None
            }
        },
        None => None,
    }
}

/// The film numbers that the links name, in order.
pub open spec fn linked_ids(hrefs: Seq<Seq<char>>) -> Seq<Seq<char>>
    decreases hrefs.len(),
{
    if hrefs.len() == 0 {
        Seq::empty()
    } else {
        match linked_id(hrefs.last()) {
            Some(id) => linked_ids(hrefs.drop_last()).push(id),
            None => linked_ids(hrefs.drop_last()),
        }
    }
}

/// The film numbers of a listing: those that its links name, or else
/// those that its raw text shows; each once, ascending.
pub open spec fn ids_of(html: Seq<char>) -> Seq<Seq<char>> {
    let nodes = page_of(html);
    let linked = sorted_set(linked_ids(attrs_in(nodes, 0, 0, 0, nodes.len() as int)));
    if linked.len() > 0 {
        linked
    } else {
        sorted_set(raw_ids(html, 0))
    }
}

fn read_linked_id(href: &Vec<char>) -> (r: Option<Vec<char>>)
    ensures
        opt_chars(r) == linked_id(href@),
{
    let path = take_before(&trim(href), '?');
    let film = chars_of("/film/");
    proof {
        reveal_strlit("/film/");
    }
    let rest = if starts_with(&path, &film) {
        trim_start_matches(&path, &film)
    } else {
        match find(&path, &film) {
            Some(i) => {
                proof {
                    lemma_first_at(path@, film@, 0);
                }
                assert(i + 6 <= path.len());
                slice(&path, i + 6, path.len())
            },
            None => {
                return None;
            },
        }
    };
    let id = take_before(&rest, '/');
    if id.len() > 0 && is_all_digits(&id) {
        Some(id)
    } else {
        None
    }
}

/// The film number that a link names does not depend on the link's
/// query: a link without white space around it names the same film with a
/// question mark and anything behind it as without.
pub proof fn lemma_linked_id_ignores_query(address: Seq<char>, query: Seq<char>)
    requires
        trimmed(address) == address,
        trimmed(address + seq!['?'] + query) == address + seq!['?'] + query,
    ensures
        linked_id(address + seq!['?'] + query) == linked_id(address),
{
    lemma_before_first_cut(address, '?', query);
}

/// A film number: digits, and at least one.
pub open spec fn is_number(id: Seq<char>) -> bool {
    id.len() > 0 && all_digits(id)
}

proof fn lemma_linked_ids_are_numbers(hrefs: Seq<Seq<char>>)
    ensures
        forall|t: Seq<char>| #[trigger] linked_ids(hrefs).contains(t) ==> is_number(t),
    decreases hrefs.len(),
{
    if hrefs.len() > 0 {
        lemma_linked_ids_are_numbers(hrefs.drop_last());
        let before = linked_ids(hrefs.drop_last());
        assert forall|t: Seq<char>| #[trigger] linked_ids(hrefs).contains(t) implies is_number(
            t,
        ) by {
            let all = linked_ids(hrefs);
            let i = choose|i: int| 0 <= i < all.len() && all[i] == t;
            if i < before.len() {
                assert(before[i] == t);
                assert(before.contains(t));
            }
        }
    }
}

proof fn lemma_raw_ids_are_numbers(s: Seq<char>, from: int)
    ensures
        forall|t: Seq<char>| #[trigger] raw_ids(s, from).contains(t) ==> is_number(t),
    decreases s.len() - from,
{
    let all = raw_ids(s, from);
    if from < 0 || from + 6 > s.len() {
        assert(all =~= Seq::<Seq<char>>::empty());
    } else if occurs_at(s, "/film/"@, from) {
        let rest = s.skip(from + 6);
        lemma_digit_run(rest);
        lemma_raw_ids_are_numbers(s, from + 6);
        let later = raw_ids(s, from + 6);
        assert forall|t: Seq<char>| #[trigger] all.contains(t) implies is_number(t) by {
            let i = choose|i: int| 0 <= i < all.len() && all[i] == t;
            if digit_run(rest) > 0 {
                assert(all == seq![rest.take(digit_run(rest) as int)] + later);
                if i > 0 {
                    assert(later[i - 1] == t);
                    assert(later.contains(t));
                } else {
                    assert(t == rest.take(digit_run(rest) as int));
                }
            } else {
                assert(all == later);
                assert(later.contains(t));
            }
        }
    } else {
        lemma_raw_ids_are_numbers(s, from + 1);
        assert(all == raw_ids(s, from + 1));
    }
}

/// The film numbers of a listing are numbers, each once, in strictly
/// ascending order: a listing that names N films, however often and in
/// whatever form of link, gives N numbers.
pub proof fn lemma_ids_of(html: Seq<char>)
    ensures
        forall|i: int, j: int|
            0 <= i < j < ids_of(html).len() ==> lex_less(
                #[trigger] ids_of(html)[i],
                #[trigger] ids_of(html)[j],
            ),
        forall|i: int| 0 <= i < ids_of(html).len() ==> is_number(#[trigger] ids_of(html)[i]),
{
    let nodes = page_of(html);
    let hrefs = attrs_in(nodes, 0, 0, 0, nodes.len() as int);
    lemma_sorted_set(linked_ids(hrefs));
    lemma_sorted_set(raw_ids(html, 0));
    lemma_linked_ids_are_numbers(hrefs);
    lemma_raw_ids_are_numbers(html, 0);
    let ids = ids_of(html);
    assert forall|i: int| 0 <= i < ids.len() implies is_number(#[trigger] ids[i]) by {
        assert(ids.contains(ids[i]));
    }
}

/// The film numbers of a listing: numbers, each once, in strictly
/// ascending order.
pub fn extract_film_ids(html: &str) -> (ids: Vec<Vec<char>>)
    ensures
        views(ids@) == ids_of(html@),
        forall|i: int, j: int|
            0 <= i < j < ids@.len() ==> lex_less(#[trigger] ids@[i]@, #[trigger] ids@[j]@),
        forall|i: int| 0 <= i < ids@.len() ==> is_number(#[trigger] ids@[i]@),
{
    let ids = read_film_ids(html);
    proof {
        lemma_ids_of(html@);
        assert forall|i: int, j: int| 0 <= i < j < ids@.len() implies lex_less(
            #[trigger] ids@[i]@,
            #[trigger] ids@[j]@,
        ) by {
            assert(views(ids@)[i] == ids@[i]@);
            assert(views(ids@)[j] == ids@[j]@);
        }
        assert forall|i: int| 0 <= i < ids@.len() implies is_number(#[trigger] ids@[i]@) by {
            assert(views(ids@)[i] == ids@[i]@);
        }
    }
    ids
}

fn read_film_ids(html: &str) -> (ids: Vec<Vec<char>>)
    ensures
        views(ids@) == ids_of(html@),
{
    let page = load(html);
    let hrefs = page.attr_values(0, 0);
    let mut found: Vec<Vec<char>> = Vec::new();
    let mut i: usize = 0;
    assert(views(found@) =~= linked_ids(views(hrefs@).take(0)));
    while i < hrefs.len()
        invariant
            i <= hrefs.len(),
            views(found@) == linked_ids(views(hrefs@).take(i as int)),
        decreases hrefs.len() - i,
    {
        proof {
            assert(views(hrefs@).take(i + 1).drop_last() == views(hrefs@).take(i as int));
            assert(views(hrefs@).take(i + 1).last() == hrefs@[i as int]@);
        }
        match read_linked_id(&hrefs[i]) {
            Some(id) => {
                push_text(&mut found, id);
            },
            None => {},
        }
        i += 1;
    }
    proof {
        assert(views(hrefs@).take(hrefs.len() as int) == views(hrefs@));
    }
    let linked = sort_unique(&found);
    if linked.len() > 0 {
        linked
    } else {
        sort_unique(&scan_raw_ids(&chars_of(html)))
    }
}

/// A line of time without the dash and the white space before it.
pub open spec fn time_text(s: Seq<char>) -> Seq<char> {
    trimmed(stripped_start(trimmed(s), seq!['-'], false))
}

/// A line that is a time of day: two numbers with a colon between, four
/// bytes or more in all.
pub open spec fn is_time(s: Seq<char>) -> bool {
    let t = time_text(s);
    byte_len(t) >= 4 && t.contains(':') && fields(t, ':').len() == 2 && all_digits(
        fields(t, ':')[0],
    ) && all_digits(fields(t, ':')[1])
}

/// The text names a day of the week, in English or Italian.
pub open spec fn names_weekday(s: Seq<char>) -> bool {
    occurs_in(s, "Friday"@) || occurs_in(s, "Saturday"@) || occurs_in(s, "Sunday"@) || occurs_in(
        s,
        "Monday"@,
    ) || occurs_in(s, "Tuesday"@) || occurs_in(s, "Wednesday"@) || occurs_in(s, "Thursday"@)
        || occurs_in(s, "Venerd\u{ec}"@) || occurs_in(s, "Sabato"@) || occurs_in(s, "Domenica"@)
        || occurs_in(s, "Luned\u{ec}"@) || occurs_in(s, "Marted\u{ec}"@) || occurs_in(
        s,
        "Mercoled\u{ec}"@,
    ) || occurs_in(s, "Gioved\u{ec}"@)
}

/// A line that names a day of the programme: a date with slashes in
/// 2026, or a day of the week in February.
pub open spec fn is_date_line(s: Seq<char>) -> bool {
    (s.contains('/') && occurs_in(s, "2026"@)) || ((occurs_in(s, "February"@) || occurs_in(
        s,
        "Febbraio"@,
    )) && names_weekday(s))
}

/// A line of the plot: long, and no prompt of the site.
pub open spec fn is_prose(s: Seq<char>) -> bool {
    byte_len(s) > 30 && !occurs_in(s, "Watch the trailer"@) && !occurs_in(s, "Seleziona"@)
        && !occurs_in(s, "Select "@)
}

/// What the lines of a film page say of the film, and where the reading
/// stands: whether the plot is being read, and the day that the next
/// times belong to.
#[derive(Debug)]
pub struct Notes {
    pub running_time: Option<u32>,
    pub director: Option<Vec<char>>,
    pub with_cast: Option<Vec<char>>,
    pub synopsis: Vec<Vec<char>>,
    pub showtimes: Vec<Vec<char>>,
    pub in_plot: bool,
    pub day: Option<Vec<char>>,
}

/// The mathematical content of `Notes`.
pub ghost struct NotesView {
    pub running_time: Option<u32>,
    pub director: Option<Seq<char>>,
    pub with_cast: Option<Seq<char>>,
    pub synopsis: Seq<Seq<char>>,
    pub showtimes: Seq<Seq<char>>,
    pub in_plot: bool,
    pub day: Option<Seq<char>>,
}

impl View for Notes {
    type V = NotesView;

    open spec fn view(&self) -> NotesView {
        NotesView {
            running_time: self.running_time,
            director: opt_chars(self.director),
            with_cast: opt_chars(self.with_cast),
            synopsis: views(self.synopsis@),
            showtimes: views(self.showtimes@),
            in_plot: self.in_plot,
            day: opt_chars(self.day),
        }
    }
}

/// Nothing noted yet.
pub open spec fn no_notes() -> NotesView {
    NotesView {
        running_time: None,
        director: None,
        with_cast: None,
        synopsis: Seq::empty(),
        showtimes: Seq::empty(),
        in_plot: false,
        day: None,
    }
}

/// The line after line `i`, if there is one.
pub open spec fn line_after(lines: Seq<Seq<char>>, i: int) -> Option<Seq<char>> {
    if 0 <= i && i + 1 < lines.len() {
        Some(lines[i + 1])
    } else {
        None
    }
}

/// The notes with what line `i` says of the film's data: the duration on
/// a line so labelled; director and cast on the line after their label;
/// the plot between its heading and the next heading or day.
pub open spec fn with_data(st: NotesView, lines: Seq<Seq<char>>, i: int) -> NotesView {
    let line = lines[i];
    let next = line_after(lines, i);
    if has_prefix(line, "Durata:"@) {
        let first = words(trimmed(without_prefixes(line, "Durata:"@)));
        if first.len() > 0 {
            NotesView { running_time: parsed_u32(first[0]), ..st }
        } else {
            st
        }
    } else if same_ignoring_case(line, "Director:"@) {
        NotesView { director: first_of(next, st.director), ..st }
    } else if same_ignoring_case(line, "With:"@) || same_ignoring_case(line, "Con:"@) {
        NotesView { with_cast: first_of(next, st.with_cast), ..st }
    } else if same_ignoring_case(line, "Plot"@) || same_ignoring_case(line, "Trama"@) {
        NotesView { in_plot: true, ..st }
    } else if st.in_plot {
        if same_ignoring_case(line, "Info"@) || is_date_line(line) {
            NotesView { in_plot: false, ..st }
        } else if is_prose(line) {
            NotesView { synopsis: st.synopsis.push(line), ..st }
        } else {
            st
        }
    } else {
        st
    }
}

/// The notes with what a line says of the programme: a day line opens
/// its day; a time gives a phrase, under the open day if there is one.
pub open spec fn with_time(st: NotesView, line: Seq<char>) -> NotesView {
    if is_date_line(line) {
        NotesView { day: Some(line), ..st }
    } else if is_time(line) {
        NotesView {
            showtimes: st.showtimes.push(
                match st.day {
                    Some(d) => d + " ore "@ + time_text(line),
                    None => "ore "@ + time_text(line),
                },
            ),
            ..st
        }
    } else {
        st
    }
}

/// The notes after the lines from `i` on.
pub open spec fn notes_from(lines: Seq<Seq<char>>, i: int, st: NotesView) -> NotesView
    decreases lines.len() - i,
{
    if i < 0 || i >= lines.len() {
        st
    } else {
        notes_from(lines, i + 1, with_time(with_data(st, lines, i), lines[i]))
    }
}

fn read_time_text(s: &Vec<char>) -> (out: Vec<char>)
    ensures
        out@ == time_text(s@),
{
    let mut dash: Vec<char> = Vec::new();
    dash.push('-');
    assert(dash@ =~= seq!['-']);
    trim(&strip_start(&trim(s), &dash, false))
}

fn time_line(s: &Vec<char>) -> (r: bool)
    ensures
        r == is_time(s@),
{
    let t = read_time_text(s);
    if len_bytes(&t) >= 4 && in_set(':', &t) {
        let parts = split(&t, ':');
        if parts.len() == 2 {
            assert(views(parts@)[0] == parts@[0]@);
            assert(views(parts@)[1] == parts@[1]@);
            is_all_digits(&parts[0]) && is_all_digits(&parts[1])
        } else {
            false
        }
    } else {
        false
    }
}

fn weekday_named(s: &Vec<char>) -> (r: bool)
    ensures
        r == names_weekday(s@),
{
    contains(s, &chars_of("Friday")) || contains(s, &chars_of("Saturday")) || contains(
        s,
        &chars_of("Sunday"),
    ) || contains(s, &chars_of("Monday")) || contains(s, &chars_of("Tuesday")) || contains(
        s,
        &chars_of("Wednesday"),
    ) || contains(s, &chars_of("Thursday")) || contains(s, &chars_of("Venerd\u{ec}")) || contains(
        s,
        &chars_of("Sabato"),
    ) || contains(s, &chars_of("Domenica")) || contains(s, &chars_of("Luned\u{ec}")) || contains(
        s,
        &chars_of("Marted\u{ec}"),
    ) || contains(s, &chars_of("Mercoled\u{ec}")) || contains(s, &chars_of("Gioved\u{ec}"))
}

fn date_line(s: &Vec<char>) -> (r: bool)
    ensures
        r == is_date_line(s@),
{
    (in_set('/', s) && contains(s, &chars_of("2026"))) || ((contains(s, &chars_of("February"))
        || contains(s, &chars_of("Febbraio"))) && weekday_named(s))
}

fn prose_line(s: &Vec<char>) -> (r: bool)
    ensures
        r == is_prose(s@),
{
    len_bytes(s) > 30 && !contains(s, &chars_of("Watch the trailer")) && !contains(
        s,
        &chars_of("Seleziona"),
    ) && !contains(s, &chars_of("Select "))
}

fn note_data(st: Notes, lines: &Vec<Vec<char>>, i: usize) -> (out: Notes)
    requires
        i < lines.len(),
    ensures
        out@ == with_data(st@, views(lines@), i as int),
{
    let line = &lines[i];
    let mut st = st;
    let duration = chars_of("Durata:");
    if starts_with(line, &duration) {
        let first = split_whitespace(&trim(&trim_start_matches(line, &duration)));
        if first.len() > 0 {
            assert(views(first@)[0] == first@[0]@);
            st.running_time = parse_u32(&first[0]);
        }
    } else if eq_ignore_ascii_case(line, &chars_of("Director:")) {
        if i + 1 < lines.len() {
            st.director = Some(copy(&lines[i + 1]));
        }
    } else if eq_ignore_ascii_case(line, &chars_of("With:")) || eq_ignore_ascii_case(
        line,
        &chars_of("Con:"),
    ) {
        if i + 1 < lines.len() {
            st.with_cast = Some(copy(&lines[i + 1]));
        }
    } else if eq_ignore_ascii_case(line, &chars_of("Plot")) || eq_ignore_ascii_case(
        line,
        &chars_of("Trama"),
    ) {
        st.in_plot = true;
    } else if st.in_plot {
        if eq_ignore_ascii_case(line, &chars_of("Info")) || date_line(line) {
            st.in_plot = false;
        } else if prose_line(line) {
            push_text(&mut st.synopsis, copy(line));
        }
    }
    st
}

fn note_time(st: Notes, line: &Vec<char>) -> (out: Notes)
    ensures
        out@ == with_time(st@, line@),
{
    let mut st = st;
    if date_line(line) {
        st.day = Some(copy(line));
    } else if time_line(line) {
        let time = read_time_text(line);
        let phrase = match &st.day {
            Some(d) => concat(&concat(d, &chars_of(" ore ")), &time),
            None => concat(&chars_of("ore "), &time),
        };
        push_text(&mut st.showtimes, phrase);
    }
    st
}

/// Reads the lines of a film page.
pub fn read_notes(lines: &Vec<Vec<char>>) -> (out: Notes)
    ensures
        out@ == notes_from(views(lines@), 0, no_notes()),
{
    let mut st = Notes {
        running_time: None,
        director: None,
        with_cast: None,
        synopsis: Vec::new(),
        showtimes: Vec::new(),
        in_plot: false,
        day: None,
    };
    assert(st@.synopsis =~= Seq::<Seq<char>>::empty());
    assert(st@.showtimes =~= Seq::<Seq<char>>::empty());
    let mut i: usize = 0;
    while i < lines.len()
        invariant
            i <= lines.len(),
            notes_from(views(lines@), i as int, st@) == notes_from(views(lines@), 0, no_notes()),
        decreases lines.len() - i,
    {
        st = note_data(st, lines, i);
        st = note_time(st, &lines[i]);
        i += 1;
    }
    st
}

/// A heading that is no title: empty, or the name of a section.
pub open spec fn is_section(t: Seq<char>) -> bool {
    t.len() == 0 || same_ignoring_case(t, "Plot"@) || same_ignoring_case(t, "Info"@)
        || same_ignoring_case(t, "Trama"@)
}

/// The first heading from `i` on that is a title.
pub open spec fn heading_title(texts: Seq<Seq<char>>, i: int) -> Option<Seq<char>>
    decreases texts.len() - i,
{
    if i < 0 || i >= texts.len() {
        None
    } else if !is_section(texts[i]) {
        Some(texts[i])
    } else {
        heading_title(texts, i + 1)
    }
}

/// The first image address from `i` on that can be a poster: absolute,
/// and neither a cookie banner's nor a logo's.
pub open spec fn poster_in(srcs: Seq<Seq<char>>, i: int) -> Option<Seq<char>>
    decreases srcs.len() - i,
{
    if i < 0 || i >= srcs.len() {
        None
    } else if has_prefix(trimmed(srcs[i]), "http"@) && !occurs_in(trimmed(srcs[i]), "cookie"@)
        && !occurs_in(trimmed(srcs[i]), "logo"@) {
        Some(trimmed(srcs[i]))
    } else {
        poster_in(srcs, i + 1)
    }
}

/// The poster: the image that the page declares, or else its first image
/// that can be one.
pub open spec fn poster_of(nodes: Seq<NodeView>) -> Option<Seq<char>> {
    let declared = match first_match(nodes, 2, 0, nodes.len() as int) {
        Some(j) => attr_of(nodes, j, 1),
        None => None,
    };
    first_of(declared, poster_in(attrs_in(nodes, 3, 2, 0, nodes.len() as int), 0))
}

/// The credits: director and cast, as far as known.
pub open spec fn credits_of(director: Option<Seq<char>>, with_cast: Option<Seq<char>>) -> Option<
    Seq<char>,
> {
    match (director, with_cast) {
        (Some(d), Some(w)) => Some("Regia: "@ + d + ". Con: "@ + w),
        (Some(d), None) => Some("Regia: "@ + d),
        (None, Some(w)) => Some("Con: "@ + w),
        (None, None) => None,
    }
}

/// The title of a film page: its first heading that is no section's name.
pub open spec fn title_of(nodes: Seq<NodeView>) -> Option<Seq<char>> {
    heading_title(lines_of(nodes, matches_in(nodes, 1, 0, nodes.len() as int)), 0)
}

/// What a film page says of the film whose title is `title`.
pub open spec fn titled_film(title: Seq<char>, url: Seq<char>, nodes: Seq<NodeView>) -> FilmView {
    let notes = notes_from(clean_lines(texts_in(nodes, 0, nodes.len() as int)), 0, no_notes());
    FilmView {
        title,
        url,
        poster_url: poster_of(nodes),
        cast: credits_of(notes.director, notes.with_cast),
        release_date: None,
        running_time: notes.running_time,
        synopsis: joined_if_any(notes.synopsis, "\n\n"@),
        showtimes: list_if_any(notes.showtimes),
    }
}

/// The record that a film page gives; none where the page has no title.
pub open spec fn film_of(url: Seq<char>, nodes: Seq<NodeView>) -> Option<FilmView> {
    match title_of(nodes) {
        Some(title) => Some(titled_film(title, url, nodes)),
        None => None,
    }
}

fn find_heading(texts: &Vec<Vec<char>>) -> (r: Option<Vec<char>>)
    ensures
        opt_chars(r) == heading_title(views(texts@), 0),
{
    let plot = chars_of("Plot");
    let info = chars_of("Info");
    let trama = chars_of("Trama");
    let mut i: usize = 0;
    while i < texts.len()
        invariant
            i <= texts.len(),
            plot@ == "Plot"@,
            info@ == "Info"@,
            trama@ == "Trama"@,
            heading_title(views(texts@), i as int) == heading_title(views(texts@), 0),
        decreases texts.len() - i,
    {
        let t = &texts[i];
        if !(t.len() == 0 || eq_ignore_ascii_case(t, &plot) || eq_ignore_ascii_case(t, &info)
            || eq_ignore_ascii_case(t, &trama)) {
            return Some(copy(t));
        }
        i += 1;
    }
    None
}

fn find_poster(srcs: &Vec<Vec<char>>) -> (r: Option<Vec<char>>)
    ensures
        opt_chars(r) == poster_in(views(srcs@), 0),
{
    let http = chars_of("http");
    let cookie = chars_of("cookie");
    let logo = chars_of("logo");
    let mut i: usize = 0;
    while i < srcs.len()
        invariant
            i <= srcs.len(),
            http@ == "http"@,
            cookie@ == "cookie"@,
            logo@ == "logo"@,
            poster_in(views(srcs@), i as int) == poster_in(views(srcs@), 0),
        decreases srcs.len() - i,
    {
        let s = trim(&srcs[i]);
        if starts_with(&s, &http) && !contains(&s, &cookie) && !contains(&s, &logo) {
            return Some(s);
        }
        i += 1;
    }
    None
}

fn credits(director: &Option<Vec<char>>, with_cast: &Option<Vec<char>>) -> (r: Option<String>)
    ensures
        opt_view(r) == credits_of(opt_chars(*director), opt_chars(*with_cast)),
{
    match (director, with_cast) {
        (Some(d), Some(w)) => Some(
            string_of(&concat(&concat(&concat(&chars_of("Regia: "), d), &chars_of(". Con: ")), w)),
        ),
        (Some(d), None) => Some(string_of(&concat(&chars_of("Regia: "), d))),
        (None, Some(w)) => Some(string_of(&concat(&chars_of("Con: "), w))),
        (None, None) => None,
    }
}

/// Reads a film page.
pub fn film_from_page(url: &str, page: &Page) -> (r: Option<Film>)
    ensures
        match r {
            Some(f) => film_of(url@, page@) == Some(f@),
            None => film_of(url@, page@) is None,
        },
{
    let headings = page.select(1);
    let title = match find_heading(&page.lines(&headings)) {
        Some(t) => t,
        None => {
            return None;
        },
    };
    let declared = match page.first(2) {
        Some(j) => page.attr(j, 1),
        None => None,
    };
    let poster = match declared {
        Some(p) => Some(p),
        None => find_poster(&page.attr_values(3, 2)),
    };
    let notes = read_notes(&clean(&page.all_texts()));
    Some(
        Film {
            title: string_of(&title),
            url: url.to_owned(),
            poster_url: opt_string(&poster),
            cast: credits(&notes.director, &notes.with_cast),
            release_date: None,
            running_time: notes.running_time,
            synopsis: join_if_any(&notes.synopsis, "\n\n"),
            showtimes: list_if_some(&notes.showtimes),
        },
    )
}

/// The candidate for a film number: its page on the site for the day
/// asked for.
pub open spec fn candidate_of(site: Seq<char>, ref_date: Seq<char>, id: Seq<char>) -> FilmView {
    FilmView::bare(Seq::empty(), site + "/film/"@ + id + "?ref_date="@ + ref_date)
}

impl CinemaScraper for CinergiaConeglianoScraper {
    open spec fn listing_request(&self) -> RequestView {
        RequestView::get(self.base_url@)
    }

    open spec fn planned(&self, body: Seq<char>) -> Seq<FilmView> {
        Seq::new(
            ids_of(body).len(),
            |i: int| candidate_of(self.base_url@, self.ref_date@, ids_of(body)[i]),
        )
    }

    open spec fn visits(&self) -> bool {
        true
    }

    open spec fn followed(&self, page: Seq<char>) -> Seq<Seq<char>> {
        Seq::empty()
    }

    open spec fn completed(
        &self,
        candidate: FilmView,
        page: Option<Seq<char>>,
        inner: Seq<Option<Seq<char>>>,
    ) -> Option<FilmView> {
        match page {
            Some(html) => film_of(candidate.url, page_of(html)),
            None => None,
        }
    }

    open spec fn feed_path(&self) -> Seq<char> {
        "docs/feeds/cinergia_conegliano.xml"@
    }

    open spec fn warm_up_request(&self) -> Option<RequestView> {
        None
    }

    fn listing(&self) -> (r: Request) {
        Request::get(self.base_url.clone())
    }

    fn plan(&self, body: &str) -> (out: Vec<Film>) {
        let ids = extract_film_ids(body);
        let site = chars_of(self.base_url.as_str());
        let day = chars_of(self.ref_date.as_str());
        let mut out: Vec<Film> = Vec::new();
        let mut i: usize = 0;
        while i < ids.len()
            invariant
                i <= ids.len(),
                out@.len() == i,
                site@ == self.base_url@,
                day@ == self.ref_date@,
                forall|j: int|
                    0 <= j < i ==> (#[trigger] out@[j])@ == candidate_of(
                        self.base_url@,
                        self.ref_date@,
                        ids@[j]@,
                    ),
            decreases ids.len() - i,
        {
            let path = concat(&concat(&site, &chars_of("/film/")), &ids[i]);
            let url = concat(&concat(&path, &chars_of("?ref_date=")), &day);
            out.push(Film::bare(String::new(), string_of(&url)));
            i += 1;
        }
        assert(films_view(out@) =~= self.planned(body@));
        out
    }

    fn visits_candidates(&self) -> (b: bool) {
        true
    }

    fn follow(&self, page: &str) -> (urls: Vec<String>) {
        let urls: Vec<String> = Vec::new();
        assert(strings_view(urls@) =~= Seq::<Seq<char>>::empty());
        urls
    }

    fn complete(&self, candidate: &Film, page: &Option<String>, inner: &Vec<Option<String>>) -> (r:
        Option<Film>) {
        match page {
            Some(html) => film_from_page(candidate.url.as_str(), &load(html.as_str())),
            None => None,
        }
    }

    fn rss_filename(&self) -> (name: String) {
        "docs/feeds/cinergia_conegliano.xml".to_owned()
    }

    fn warm_up(&self) -> (r: Option<Request>) {
        None
    }

    proof fn lemma_failed_page_gives_nothing(
        &self,
        candidate: FilmView,
        inner: Seq<Option<Seq<char>>>,
    ) {
    }
}

} // verus!
