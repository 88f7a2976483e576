//! Cinema Porto Astra, Padova.

use crate::crawl::{CinemaScraper, Request, RequestView};
use crate::discover::{bare_candidates, bare_films, sort_unique, sorted_set};
use crate::film::{
    join_if_any, joined_if_any, list_if_any, list_if_some, opt_chars, opt_string, opt_view,
    strings_view, Film, FilmView,
};
use crate::lines::{clean, clean_lines};
use crate::links::{absolute, make_absolute};
use crate::number::{count_leading_digits, digit_run, parse_u32, parsed_u32};
use crate::page::{
    attrs_in, first_line, lines_of, matches_in, scanned, strs_view, texts_in, NodeView, Page,
};
use crate::text::{
    byte_len, chars_of, concat, contains, copy, digit, has_prefix, in_set, is_digit, len_bytes,
    occurs_in, push_text, slice, starts_with, string_of, strip, stripped, trim,
    trim_start_matches, trimmed, views, without_prefixes,
};
use crate::tokens::{first_replaced, join, joined, replace_first, split_whitespace, words};
use vstd::prelude::*;

verus! {

/// The source of Porto Astra's week.
#[derive(Debug, Clone)]
pub struct PortoAstraScraper {
    pub url: String,
}

impl PortoAstraScraper {
    /// A source for the week's page at the given address.
    pub fn new(url: String) -> (scraper: Self)
        ensures
            scraper.url@ == url@,
    {
        PortoAstraScraper { url }
    }
}

/// The site's origin.
pub open spec fn origin() -> Seq<char> {
    "https://portoastra.it"@
}

/// A line without white space and asterisks around it.
pub open spec fn bare_line(line: Seq<char>) -> Seq<char> {
    trimmed(stripped(trimmed(line), seq!['*'], false))
}

/// The text starts with the name of a day of the week and a space.
pub open spec fn names_day(s: Seq<char>) -> bool {
    has_prefix(s, "Domenica "@) || has_prefix(s, "Luned\u{ec} "@) || has_prefix(
        s,
        "Marted\u{ec} "@,
    ) || has_prefix(s, "Mercoled\u{ec} "@) || has_prefix(s, "Gioved\u{ec} "@) || has_prefix(
        s,
        "Venerd\u{ec} "@,
    ) || has_prefix(s, "Sabato "@)
}

/// A line that names a day of the schedule, such as `Domenica 15/02`:
/// a day's name, a slash, and no more than twenty bytes.
pub open spec fn day_line(line: Seq<char>) -> bool {
    names_day(bare_line(line)) && byte_len(bare_line(line)) <= 20 && bare_line(line).contains('/')
}

fn strip_line(line: &Vec<char>) -> (out: Vec<char>)
    ensures
        out@ == bare_line(line@),
{
    let mut star: Vec<char> = Vec::new();
    star.push('*');
    assert(star@ =~= seq!['*']);
    trim(&strip(&trim(line), &star, false))
}

fn day_named(s: &Vec<char>) -> (r: bool)
    ensures
        r == names_day(s@),
{
    starts_with(s, &chars_of("Domenica ")) || starts_with(s, &chars_of("Luned\u{ec} "))
        || starts_with(s, &chars_of("Marted\u{ec} ")) || starts_with(
        s,
        &chars_of("Mercoled\u{ec} "),
    ) || starts_with(s, &chars_of("Gioved\u{ec} ")) || starts_with(s, &chars_of("Venerd\u{ec} "))
        || starts_with(s, &chars_of("Sabato "))
}

fn day_chars(line: &Vec<char>) -> (r: bool)
    ensures
        r == day_line(line@),
{
    let s = strip_line(line);
    day_named(&s) && len_bytes(&s) <= 20 && in_set('/', &s)
}

/// Whether a line names a day of the schedule.
pub fn is_day_line(line: &str) -> (r: bool)
    ensures
        r == day_line(line@),
{
    day_chars(&chars_of(line))
}

/// The time tokens of a line from index `i` on. A token is a run of
/// digits, a dot and two digits, four or five characters in all; what
/// follows a token is read on at once, so that tokens may stand back to
/// back.
pub open spec fn time_tokens(s: Seq<char>, i: int) -> Seq<Seq<char>>
    decreases s.len() - i,
{
    if i < 0 || i >= s.len() {
        Seq::empty()
    } else if !digit(s[i]) {
        time_tokens(s, i + 1)
    } else {
        let j = i + digit_run(s.skip(i));
        if j <= i || j > s.len() {
            Seq::empty()
        } else if j < s.len() && s[j] == '.' {
            if j + 3 <= s.len() && digit(s[j + 1]) && digit(s[j + 2]) {
                if 4 <= j + 3 - i <= 5 {
                    seq![s.subrange(i, j + 3)] + time_tokens(s, j + 3)
                } else {
                    time_tokens(s, j + 3)
                }
            } else {
                time_tokens(s, j + 1)
            }
        } else {
            time_tokens(s, j)
        }
    }
}

fn time_chars(s: &Vec<char>) -> (out: Vec<Vec<char>>)
    ensures
        views(out@) == time_tokens(s@, 0),
{
    let mut out: Vec<Vec<char>> = Vec::new();
    let mut i: usize = 0;
    proof {
        assert(views(out@) + time_tokens(s@, 0) =~= time_tokens(s@, 0));
    }
    while i < s.len()
        invariant
            views(out@) + time_tokens(s@, i as int) == time_tokens(s@, 0),
        decreases s.len() - i,
    {
        if !is_digit(s[i]) {
            i += 1;
        } else {
            let rest = slice(s, i, s.len());
            assert(rest@ == s@.skip(i as int));
            let d = count_leading_digits(&rest);
            assert(rest@[0] == s@[i as int]);
            assert(d >= 1);
            let j = i + d;
            if j < s.len() && s[j] == '.' {
                if s.len() - j >= 3 && is_digit(s[j + 1]) && is_digit(s[j + 2]) {
                    if 4 <= j + 3 - i && j + 3 - i <= 5 {
                        let token = slice(s, i, j + 3);
                        proof {
                            assert(views(out@) + (seq![token@] + time_tokens(s@, j + 3))
                                =~= views(out@).push(token@) + time_tokens(s@, j + 3));
                        }
                        push_text(&mut out, token);
                    }
                    i = j + 3;
                } else {
                    i = j + 1;
                }
            } else {
                i = j;
            }
        }
    }
    proof {
        assert(views(out@) + Seq::<Seq<char>>::empty() =~= views(out@));
    }
    out
}

/// The time tokens of a line, such as `17.40`, `20.10` and `22.30` in
/// `17.4020.1022.30`.
pub fn parse_time_tokens(line: &str) -> (out: Vec<String>)
    ensures
        strings_view(out@) == time_tokens(line@, 0),
{
    let found = time_chars(&chars_of(line));
    let out = crate::text::strings_of(&found);
    assert(strings_view(out@) =~= views(found@));
    out
}

/// The selectors that the site's pages are asked: film links; headings;
/// bold text; images.
pub open spec fn selector_list() -> Seq<Seq<char>> {
    seq!["a[href*=\"/film/\"]"@, "h1, h2, h3"@, "b, strong"@, "img[src]"@]
}

/// The attributes that are read: `href` and `src`.
pub open spec fn name_list() -> Seq<Seq<char>> {
    seq!["href"@, "src"@]
}

/// The page that `html` parses to, as this source reads it.
pub open spec fn page_of(html: Seq<char>) -> Seq<NodeView> {
    scanned(html, selector_list(), name_list())
}

/// Parses a page of the site.
pub fn load(html: &str) -> (page: Page)
    ensures
        page@ == page_of(html@),
{
    let selectors = vec!["a[href*=\"/film/\"]", "h1, h2, h3", "b, strong", "img[src]"];
    let names = vec!["href", "src"];
    assert(strs_view(selectors@) =~= selector_list());
    assert(strs_view(names@) =~= name_list());
    Page::parse(html, &selectors, &names)
}

/// The links made absolute.
pub open spec fn absolute_all(hrefs: Seq<Seq<char>>) -> Seq<Seq<char>> {
    Seq::new(hrefs.len(), |i: int| absolute(hrefs[i], origin()))
}

/// The addresses to visit for the week's page: the film pages that it
/// links to, each once, ascending.
pub open spec fn visits_of(nodes: Seq<NodeView>) -> Seq<Seq<char>> {
    sorted_set(absolute_all(clean_lines(attrs_in(nodes, 0, 0, 0, nodes.len() as int))))
}

/// The addresses to visit for the week's page.
pub fn film_urls(page: &Page) -> (urls: Vec<Vec<char>>)
    ensures
        views(urls@) == visits_of(page@),
{
    let hrefs = clean(&page.attr_values(0, 0));
    let mut found: Vec<Vec<char>> = Vec::new();
    let mut i: usize = 0;
    while i < hrefs.len()
        invariant
            i <= hrefs.len(),
            found@.len() == i,
            forall|j: int| 0 <= j < i ==> (#[trigger] found@[j])@ == absolute(hrefs@[j]@, origin()),
        decreases hrefs.len() - i,
    {
        found.push(make_absolute(&hrefs[i], "https://portoastra.it"));
        i += 1;
    }
    assert(views(found@) =~= absolute_all(views(hrefs@)));
    sort_unique(&found)
}

/// What the lines of a film page say of the film, and whether the line
/// with the duration has been passed.
#[derive(Debug)]
pub struct Sheet {
    pub director: Option<Vec<char>>,
    pub actors: Option<Vec<char>>,
    pub running_time: Option<u32>,
    pub synopsis: Vec<Vec<char>>,
    pub after_duration: bool,
}

/// The mathematical content of a `Sheet`.
pub ghost struct SheetView {
    pub director: Option<Seq<char>>,
    pub actors: Option<Seq<char>>,
    pub running_time: Option<u32>,
    pub synopsis: Seq<Seq<char>>,
    pub after_duration: bool,
}

impl View for Sheet {
    type V = SheetView;

    open spec fn view(&self) -> SheetView {
        SheetView {
            director: opt_chars(self.director),
            actors: opt_chars(self.actors),
            running_time: self.running_time,
            synopsis: views(self.synopsis@),
            after_duration: self.after_duration,
        }
    }
}

/// The sheet before any line is read.
pub open spec fn empty_sheet() -> SheetView {
    SheetView {
        director: None,
        actors: None,
        running_time: None,
        synopsis: Seq::empty(),
        after_duration: false,
    }
}

/// What stands on a line behind its label.
pub open spec fn value_behind(line: Seq<char>, label: Seq<char>) -> Seq<char> {
    trimmed(without_prefixes(line, label))
}

/// A line at which the synopsis ends.
pub open spec fn ends_synopsis(line: Seq<char>) -> bool {
    has_prefix(line, "Sito ufficiale"@) || has_prefix(line, "## ORARI"@) || line.contains('/')
}

/// A line of the synopsis: long, and no part of the site's menu.
pub open spec fn is_prose(line: Seq<char>) -> bool {
    byte_len(line) > 40 && !occurs_in(line, "Home"@) && !occurs_in(
        line,
        "Film della settimana"@,
    ) && !occurs_in(line, "Il cinema"@) && !occurs_in(line, "Info e costi"@)
}

/// The sheet after the lines from `i` on. The labelled lines give
/// director, actors and duration; what follows the duration is the
/// synopsis, up to the line that ends it.
pub open spec fn sheet_from(lines: Seq<Seq<char>>, i: int, st: SheetView) -> SheetView
    decreases lines.len() - i,
{
    if i < 0 || i >= lines.len() {
        st
    } else if has_prefix(lines[i], "REGIA:"@) {
        sheet_from(
            lines,
            i + 1,
            SheetView { director: Some(value_behind(lines[i], "REGIA:"@)), ..st },
        )
    } else if has_prefix(lines[i], "ATTORI:"@) {
        sheet_from(
            lines,
            i + 1,
            SheetView { actors: Some(value_behind(lines[i], "ATTORI:"@)), ..st },
        )
    } else if has_prefix(lines[i], "Durata:"@) {
        let first = words(value_behind(lines[i], "Durata:"@));
        sheet_from(
            lines,
            i + 1,
            SheetView {
                running_time: if first.len() > 0 {
                    parsed_u32(first[0])
                } else {
                    st.running_time
                },
                after_duration: true,
                ..st
            },
        )
    } else if st.after_duration {
        if ends_synopsis(lines[i]) {
            st
        } else if is_prose(lines[i]) {
            sheet_from(lines, i + 1, SheetView { synopsis: st.synopsis.push(lines[i]), ..st })
        } else {
            sheet_from(lines, i + 1, st)
        }
    } else {
        sheet_from(lines, i + 1, st)
    }
}

fn read_behind(line: &Vec<char>, label: &Vec<char>) -> (out: Vec<char>)
    ensures
        out@ == value_behind(line@, label@),
{
    trim(&trim_start_matches(line, label))
}

fn prose_line(line: &Vec<char>) -> (r: bool)
    ensures
        r == is_prose(line@),
{
    len_bytes(line) > 40 && !contains(line, &chars_of("Home")) && !contains(
        line,
        &chars_of("Film della settimana"),
    ) && !contains(line, &chars_of("Il cinema")) && !contains(line, &chars_of("Info e costi"))
}

/// Reads the lines of a film page.
pub fn read_sheet(lines: &Vec<Vec<char>>) -> (sheet: Sheet)
    ensures
        sheet@ == sheet_from(views(lines@), 0, empty_sheet()),
{
    let director = chars_of("REGIA:");
    let actors = chars_of("ATTORI:");
    let duration = chars_of("Durata:");
    let site = chars_of("Sito ufficiale");
    let times = chars_of("## ORARI");
    let mut st = Sheet {
        director: None,
        actors: None,
        running_time: None,
        synopsis: Vec::new(),
        after_duration: false,
    };
    assert(st@.synopsis =~= Seq::<Seq<char>>::empty());
    let mut i: usize = 0;
    while i < lines.len()
        invariant
            i <= lines.len(),
            director@ == "REGIA:"@,
            actors@ == "ATTORI:"@,
            duration@ == "Durata:"@,
            site@ == "Sito ufficiale"@,
            times@ == "## ORARI"@,
            sheet_from(views(lines@), i as int, st@) == sheet_from(views(lines@), 0, empty_sheet()),
        decreases lines.len() - i,
    {
        let line = &lines[i];
        if starts_with(line, &director) {
            st.director = Some(read_behind(line, &director));
        } else if starts_with(line, &actors) {
            st.actors = Some(read_behind(line, &actors));
        } else if starts_with(line, &duration) {
            let first = split_whitespace(&read_behind(line, &duration));
            if first.len() > 0 {
                assert(views(first@)[0] == first@[0]@);
                st.running_time = parse_u32(&first[0]);
            }
            st.after_duration = true;
        } else if st.after_duration {
            if starts_with(line, &site) || starts_with(line, &times) || in_set('/', line) {
                return st;
            }
            if prose_line(line) {
                push_text(&mut st.synopsis, copy(line));
            }
        }
        i += 1;
    }
    st
}

/// The credits: director and actors, as far as known.
pub open spec fn credits_of(director: Option<Seq<char>>, actors: Option<Seq<char>>) -> Option<
    Seq<char>,
> {
    match (director, actors) {
        (Some(r), Some(a)) => Some("Regia: "@ + r + ". Attori: "@ + a),
        (Some(r), None) => Some("Regia: "@ + r),
        (None, Some(a)) => Some("Attori: "@ + a),
        (None, None) => None,
    }
}

fn credits(director: &Option<Vec<char>>, actors: &Option<Vec<char>>) -> (r: Option<String>)
    ensures
        opt_view(r) == credits_of(opt_chars(*director), opt_chars(*actors)),
{
    match (director, actors) {
        (Some(r), Some(a)) => Some(
            string_of(
                &concat(&concat(&concat(&chars_of("Regia: "), r), &chars_of(". Attori: ")), a),
            ),
        ),
        (Some(r), None) => Some(string_of(&concat(&chars_of("Regia: "), r))),
        (None, Some(a)) => Some(string_of(&concat(&chars_of("Attori: "), a))),
        (None, None) => None,
    }
}

/// Index of the first line from `i` on that holds `mark` or `other`;
/// `none` where no line does.
pub open spec fn mark_index(
    lines: Seq<Seq<char>>,
    i: int,
    mark: Seq<char>,
    other: Seq<char>,
    none: int,
) -> int
    decreases lines.len() - i,
{
    if i < 0 || i >= lines.len() {
        none
    } else if occurs_in(lines[i], mark) || occurs_in(lines[i], other) {
        i
    } else {
        mark_index(lines, i + 1, mark, other, none)
    }
}

/// While the schedule is read: the day that the times belong to, the
/// times gathered, and the phrases so far.
pub ghost struct Week {
    pub day: Option<Seq<char>>,
    pub times: Seq<Seq<char>>,
    pub phrases: Seq<Seq<char>>,
}

/// Time tokens with their dots made colons.
pub open spec fn normalized_all(tokens: Seq<Seq<char>>) -> Seq<Seq<char>> {
    Seq::new(tokens.len(), |k: int| first_replaced(tokens[k], '.', ':'))
}

/// The phrase of a day and its times.
pub open spec fn phrase_of(day: Seq<char>, times: Seq<Seq<char>>) -> Seq<char> {
    day + " ore "@ + joined(times, ", "@)
}

/// The state with the day's phrase added and its times cleared, where a
/// day is open and has times.
pub open spec fn flushed(st: Week) -> Week {
    match st.day {
        Some(d) => if st.times.len() > 0 {
            Week { phrases: st.phrases.push(phrase_of(d, st.times)), times: Seq::empty(), ..st }
        } else {
            st
        },
        None => st,
    }
}

/// The state after one more line: a day line closes the day before and
/// opens its own; any other line adds its time tokens.
pub open spec fn week_step(st: Week, line: Seq<char>) -> Week {
    if day_line(line) {
        Week { day: Some(bare_line(line)), ..flushed(st) }
    } else {
        Week { times: st.times + normalized_all(time_tokens(line, 0)), ..st }
    }
}

/// The state after the lines from `i` up to `end`.
pub open spec fn week_from(lines: Seq<Seq<char>>, i: int, end: int, st: Week) -> Week
    decreases end - i,
{
    if i < 0 || i >= end || i >= lines.len() {
        st
    } else {
        week_from(lines, i + 1, end, week_step(st, lines[i]))
    }
}

/// The showtimes of a film page: one phrase per day of its schedule,
/// which runs from the first line that holds `ORARI` to the first that
/// leads on to other films.
pub open spec fn showtimes_of(lines: Seq<Seq<char>>) -> Seq<Seq<char>> {
    flushed(
        week_from(
            lines,
            mark_index(lines, 0, "ORARI"@, "ORARI"@, 0),
            mark_index(lines, 0, "ALTRI FILM"@, "Articoli correlati"@, lines.len() as int),
            Week { day: None, times: Seq::empty(), phrases: Seq::empty() },
        ),
    ).phrases
}

/// A schedule of one day line and one line of times gives one phrase:
/// the day, and behind `ore` the times of the line, each with a colon for
/// its dot, commas between.
pub proof fn lemma_one_day(day: Seq<char>, times: Seq<char>)
    requires
        day_line(day),
        !day_line(times),
        time_tokens(times, 0).len() > 0,
        !occurs_in(times, "ORARI"@),
        !occurs_in(day, "ALTRI FILM"@),
        !occurs_in(day, "Articoli correlati"@),
        !occurs_in(times, "ALTRI FILM"@),
        !occurs_in(times, "Articoli correlati"@),
    ensures
        showtimes_of(seq![day, times]) == seq![
            bare_line(day) + " ore "@ + joined(normalized_all(time_tokens(times, 0)), ", "@),
        ],
{
    let lines = seq![day, times];
    let none = Week { day: None, times: Seq::empty(), phrases: Seq::empty() };
    assert(lines[0] == day);
    assert(lines[1] == times);
    assert(mark_index(lines, 2, "ORARI"@, "ORARI"@, 0) == 0);
    assert(mark_index(lines, 1, "ORARI"@, "ORARI"@, 0) == 0);
    assert(mark_index(lines, 0, "ORARI"@, "ORARI"@, 0) == 0);
    assert(mark_index(lines, 2, "ALTRI FILM"@, "Articoli correlati"@, 2) == 2);
    assert(mark_index(lines, 1, "ALTRI FILM"@, "Articoli correlati"@, 2) == 2);
    assert(mark_index(lines, 0, "ALTRI FILM"@, "Articoli correlati"@, 2) == 2);
    let first = week_step(none, day);
    assert(first == Week { day: Some(bare_line(day)), ..none });
    let second = week_step(first, times);
    let tokens = normalized_all(time_tokens(times, 0));
    assert(Seq::<Seq<char>>::empty() + tokens =~= tokens);
    assert(second == Week { times: tokens, ..first });
    assert(week_from(lines, 2, 2, second) == second);
    assert(week_from(lines, 1, 2, first) == second);
    assert(week_from(lines, 0, 2, none) == second);
    assert(flushed(second).phrases =~= seq![phrase_of(bare_line(day), tokens)]);
}

fn find_mark(lines: &Vec<Vec<char>>, mark: &str, other: &str, none: usize) -> (r: usize)
    ensures
        r == mark_index(views(lines@), 0, mark@, other@, none as int),
        r <= lines.len() || r == none,
{
    let a = chars_of(mark);
    let b = chars_of(other);
    let mut i: usize = 0;
    while i < lines.len()
        invariant
            i <= lines.len(),
            a@ == mark@,
            b@ == other@,
            mark_index(views(lines@), i as int, mark@, other@, none as int) == mark_index(
                views(lines@),
                0,
                mark@,
                other@,
                none as int,
            ),
        decreases lines.len() - i,
    {
        if contains(&lines[i], &a) || contains(&lines[i], &b) {
            return i;
        }
        i += 1;
    }
    none
}

fn flush(day: &Option<Vec<char>>, times: &mut Vec<Vec<char>>, phrases: &mut Vec<Vec<char>>)
    ensures
        (Week { day: opt_chars(*day), times: views(final(times)@), phrases: views(final(phrases)@) })
            == flushed(
            Week { day: opt_chars(*day), times: views(old(times)@), phrases: views(old(phrases)@) },
        ),
{
    match day {
        Some(d) => {
            if times.len() > 0 {
                let phrase = concat(
                    &concat(d, &chars_of(" ore ")),
                    &join(times, &chars_of(", ")),
                );
                push_text(phrases, phrase);
                times.clear();
                assert(views(times@) =~= Seq::<Seq<char>>::empty());
            }
        },
        None => {},
    }
}

fn normalize_all(tokens: &Vec<Vec<char>>) -> (out: Vec<Vec<char>>)
    ensures
        views(out@) == normalized_all(views(tokens@)),
{
    let mut out: Vec<Vec<char>> = Vec::new();
    let mut i: usize = 0;
    while i < tokens.len()
        invariant
            i <= tokens.len(),
            out@.len() == i,
            forall|j: int|
                0 <= j < i ==> (#[trigger] out@[j])@ == first_replaced(tokens@[j]@, '.', ':'),
        decreases tokens.len() - i,
    {
        out.push(replace_first(&tokens[i], '.', ':'));
        i += 1;
    }
    assert(views(out@) =~= normalized_all(views(tokens@)));
    out
}

/// Reads the schedule of a film page.
pub fn read_showtimes(lines: &Vec<Vec<char>>) -> (phrases: Vec<Vec<char>>)
    ensures
        views(phrases@) == showtimes_of(views(lines@)),
{
    let start = find_mark(lines, "ORARI", "ORARI", 0);
    let end = find_mark(lines, "ALTRI FILM", "Articoli correlati", lines.len());
    let mut day: Option<Vec<char>> = None;
    let mut times: Vec<Vec<char>> = Vec::new();
    let mut phrases: Vec<Vec<char>> = Vec::new();
    assert(views(times@) =~= Seq::<Seq<char>>::empty());
    assert(views(phrases@) =~= Seq::<Seq<char>>::empty());
    let mut i: usize = start;
    while i < end && i < lines.len()
        invariant
            start <= i,
            week_from(
                views(lines@),
                i as int,
                end as int,
                Week { day: opt_chars(day), times: views(times@), phrases: views(phrases@) },
            ) == week_from(
                views(lines@),
                start as int,
                end as int,
                Week { day: None, times: Seq::empty(), phrases: Seq::empty() },
            ),
        decreases lines.len() - i,
    {
        let line = &lines[i];
        if day_chars(line) {
            flush(&day, &mut times, &mut phrases);
            day = Some(strip_line(line));
        } else {
            let ghost before = views(times@);
            let mut more = normalize_all(&time_chars(line));
            let ghost added = views(more@);
            times.append(&mut more);
            assert(views(times@) =~= before + added);
        }
        i += 1;
    }
    flush(&day, &mut times, &mut phrases);
    phrases
}

/// The first of `texts` that can be a title: not empty, and no label of
/// the film's data.
pub open spec fn bold_title(texts: Seq<Seq<char>>, i: int) -> Option<Seq<char>>
    decreases texts.len() - i,
{
    if i < 0 || i >= texts.len() {
        None
    } else if texts[i].len() > 0 && !occurs_in(texts[i], "REGIA"@) && !occurs_in(
        texts[i],
        "ATTORI"@,
    ) {
        Some(texts[i])
    } else {
        bold_title(texts, i + 1)
    }
}

/// The title of a film page: its first heading, or else its first bold
/// text that can be one.
pub open spec fn title_of(nodes: Seq<NodeView>) -> Option<Seq<char>> {
    let heading = match first_line(nodes, 1, 0, nodes.len() as int) {
        Some(t) => t,
        None => Seq::empty(),
    };
    if heading.len() > 0 {
        Some(heading)
    } else {
        bold_title(lines_of(nodes, matches_in(nodes, 2, 0, nodes.len() as int)), 0)
    }
}

/// The first image address from `i` on that points to the poster store.
pub open spec fn poster_in(srcs: Seq<Seq<char>>, i: int) -> Option<Seq<char>>
    decreases srcs.len() - i,
{
    if i < 0 || i >= srcs.len() {
        None
    } else if occurs_in(trimmed(srcs[i]), "appalcinema."@) {
        Some(trimmed(srcs[i]))
    } else {
        poster_in(srcs, i + 1)
    }
}

/// The record that a film page gives; none where it has no title.
pub open spec fn film_of(url: Seq<char>, nodes: Seq<NodeView>) -> Option<FilmView> {
    let lines = clean_lines(texts_in(nodes, 0, nodes.len() as int));
    let sheet = sheet_from(lines, 0, empty_sheet());
    match title_of(nodes) {
        Some(title) => Some(
            FilmView {
                title,
                url,
                poster_url: poster_in(attrs_in(nodes, 3, 1, 0, nodes.len() as int), 0),
                cast: credits_of(sheet.director, sheet.actors),
                release_date: None,
                running_time: sheet.running_time,
                synopsis: joined_if_any(sheet.synopsis, " "@),
                showtimes: list_if_any(showtimes_of(lines)),
            },
        ),
        None => None,
    }
}

fn find_bold_title(texts: &Vec<Vec<char>>) -> (r: Option<Vec<char>>)
    ensures
        opt_chars(r) == bold_title(views(texts@), 0),
{
    let director = chars_of("REGIA");
    let actors = chars_of("ATTORI");
    let mut i: usize = 0;
    while i < texts.len()
        invariant
            i <= texts.len(),
            director@ == "REGIA"@,
            actors@ == "ATTORI"@,
            bold_title(views(texts@), i as int) == bold_title(views(texts@), 0),
        decreases texts.len() - i,
    {
        let t = &texts[i];
        if t.len() > 0 && !contains(t, &director) && !contains(t, &actors) {
            return Some(copy(t));
        }
        i += 1;
    }
    None
}

fn read_title(page: &Page) -> (r: Option<Vec<char>>)
    ensures
        opt_chars(r) == title_of(page@),
{
    let heading = match page.first_line_in_range(1, 0, page.len()) {
        Some(t) => t,
        None => Vec::new(),
    };
    if heading.len() > 0 {
        return Some(heading);
    }
    let bold = page.select(2);
    find_bold_title(&page.lines(&bold))
}

fn find_poster(srcs: &Vec<Vec<char>>) -> (r: Option<Vec<char>>)
    ensures
        opt_chars(r) == poster_in(views(srcs@), 0),
{
    let store = chars_of("appalcinema.");
    let mut i: usize = 0;
    while i < srcs.len()
        invariant
            i <= srcs.len(),
            store@ == "appalcinema."@,
            poster_in(views(srcs@), i as int) == poster_in(views(srcs@), 0),
        decreases srcs.len() - i,
    {
        let s = trim(&srcs[i]);
        if contains(&s, &store) {
            return Some(s);
        }
        i += 1;
    }
    None
}

fn read_poster(page: &Page) -> (r: Option<Vec<char>>)
    ensures
        opt_chars(r) == poster_in(attrs_in(page@, 3, 1, 0, page@.len() as int), 0),
{
    find_poster(&page.attr_values(3, 1))
}

/// Reads a film page.
pub fn film_from_page(url: &str, page: &Page) -> (r: Option<Film>)
    ensures
        match r {
            Some(f) => film_of(url@, page@) == Some(f@),
            None => film_of(url@, page@) is None,
        },
{
    let title = match read_title(page) {
        Some(t) => t,
        None => {
            return None;
        },
    };
    let lines = clean(&page.all_texts());
    let sheet = read_sheet(&lines);
    Some(
        Film {
            title: string_of(&title),
            url: url.to_owned(),
            poster_url: opt_string(&read_poster(page)),
            cast: credits(&sheet.director, &sheet.actors),
            release_date: None,
            running_time: sheet.running_time,
            synopsis: join_if_any(&sheet.synopsis, " "),
            showtimes: list_if_some(&read_showtimes(&lines)),
        },
    )
}

impl CinemaScraper for PortoAstraScraper {
    open spec fn listing_request(&self) -> RequestView {
        RequestView::get(self.url@)
    }

    open spec fn planned(&self, body: Seq<char>) -> Seq<FilmView> {
        bare_films(visits_of(page_of(body)))
    }

    open spec fn visits(&self) -> bool {
        true
    }

    open spec fn followed(&self, page: Seq<char>) -> Seq<Seq<char>> {
        Seq::empty()
    }

    open spec fn completed(
        &self,
        candidate: FilmView,
        page: Option<Seq<char>>,
        inner: Seq<Option<Seq<char>>>,
    ) -> Option<FilmView> {
        match page {
            Some(html) => film_of(candidate.url, page_of(html)),
            None => None,
        }
    }

    open spec fn feed_path(&self) -> Seq<char> {
        "docs/feeds/padova.xml"@
    }

    open spec fn warm_up_request(&self) -> Option<RequestView> {
        None
    }

    fn listing(&self) -> (r: Request) {
        Request::get(self.url.clone())
    }

    fn plan(&self, body: &str) -> (out: Vec<Film>) {
        bare_candidates(&film_urls(&load(body)))
    }

    fn visits_candidates(&self) -> (b: bool) {
        true
    }

    fn follow(&self, page: &str) -> (urls: Vec<String>) {
        let urls: Vec<String> = Vec::new();
        assert(strings_view(urls@) =~= Seq::<Seq<char>>::empty());
        urls
    }

    fn complete(&self, candidate: &Film, page: &Option<String>, inner: &Vec<Option<String>>) -> (r:
        Option<Film>) {
        match page {
            Some(html) => film_from_page(candidate.url.as_str(), &load(html.as_str())),
            None => None,
        }
    }

    fn rss_filename(&self) -> (name: String) {
        "docs/feeds/padova.xml".to_owned()
    }

    fn warm_up(&self) -> (r: Option<Request>) {
        None
    }

    proof fn lemma_failed_page_gives_nothing(
        &self,
        candidate: FilmView,
        inner: Seq<Option<Seq<char>>>,
    ) {
    }
}

} // verus!
