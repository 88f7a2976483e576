//! Film series: the "Rassegna Film d'Autore" of Cinema Cristallo, Oderzo,
//! and the series of Cinema Edera.

use crate::crawl::{CinemaScraper, Request, RequestView};
use crate::discover::{bare_candidates, bare_films, sort_unique, sorted_set};
use crate::duration::{minutes_in_words, parse_hours_minutes};
use crate::gather::one_if;
use crate::film::{
    join_if_any, joined_if_any, list_if_any, list_if_some, opt_chars, opt_string, opt_view,
    strings_view, text_if_any, Film, FilmView,
};
use crate::lines::{clean, clean_lines, find_with_prefix, first_with_prefix};
use crate::links::{make_prefixed, prefixed};
use crate::merge::first_of;
use crate::page::{
    attr_of, attrs_in, first_line, first_match, first_paragraphs, line_of, matches_in, scanned,
    strs_view, subtree_end, texts_in, texts_of, NodeView, Page,
};
use crate::text::{
    any_digit, chars_of, concat, copy, ends_with, has_digit, has_prefix, has_suffix, in_set,
    lowercase, push_text, starts_with, string_of, to_lowercase, trim, trimmed, views,
};
use crate::tokens::{
    first_replaced, replace_first, split_at_first, split_once, split_whitespace, words,
};
use vstd::prelude::*;

verus! {

/// The source of Cinema Cristallo's series.
#[derive(Debug, Clone)]
pub struct RassegneScraper {
    pub url: String,
}

impl RassegneScraper {
    /// A source for the series' page at the given address.
    pub fn new(url: String) -> (scraper: Self)
        ensures
            scraper.url@ == url@,
    {
        RassegneScraper { url }
    }
}

/// The source of Cinema Edera's series, one record per series.
#[derive(Debug, Clone)]
pub struct EderaRassegneScraper {
    pub url: String,
}

impl EderaRassegneScraper {
    /// A source for the page that lists the series.
    pub fn new(url: String) -> (scraper: Self)
        ensures
            scraper.url@ == url@,
    {
        EderaRassegneScraper { url }
    }
}

/// The origin of Cinema Cristallo's site.
pub open spec fn origin() -> Seq<char> {
    "https://www.cinemacristallo.com"@
}

/// The selectors that Cinema Cristallo's pages are asked: the series'
/// section and the film links; on a film page the side column, the
/// poster, the showtime widgets with their title, date label and times,
/// the heading, and the places where the description may stand.
pub open spec fn selector_list() -> Seq<Seq<char>> {
    seq![
        "div.amy-section.wpb_row.vc_custom_1666775304691"@,
        "a[href*=\"/movie/\"]"@,
        "div.row.amy-single-movie div.col-md-4.col-sm-4"@,
        "div.row.amy-single-movie img"@,
        "div.showtime-item.single-cinema"@,
        "div.st-title"@,
        "label"@,
        "ul li"@,
        "h1"@,
        "div.amy-single-movie div.entry-content p"@,
        "div.amy-single-movie div.amy-single-movie-content p"@,
        "div.entry-content p"@,
        "article div.entry-content p"@,
    ]
}

/// The attributes that are read: `href` and `src`.
pub open spec fn name_list() -> Seq<Seq<char>> {
    seq!["href"@, "src"@]
}

/// The page that `html` parses to, as Cinema Cristallo's source reads it.
pub open spec fn page_of(html: Seq<char>) -> Seq<NodeView> {
    scanned(html, selector_list(), name_list())
}

/// Parses a page of Cinema Cristallo's site.
pub fn load(html: &str) -> (page: Page)
    ensures
        page@ == page_of(html@),
{
    let selectors = vec![
        "div.amy-section.wpb_row.vc_custom_1666775304691",
        "a[href*=\"/movie/\"]",
        "div.row.amy-single-movie div.col-md-4.col-sm-4",
        "div.row.amy-single-movie img",
        "div.showtime-item.single-cinema",
        "div.st-title",
        "label",
        "ul li",
        "h1",
        "div.amy-single-movie div.entry-content p",
        "div.amy-single-movie div.amy-single-movie-content p",
        "div.entry-content p",
        "article div.entry-content p",
    ];
    let names = vec!["href", "src"];
    assert(strs_view(selectors@) =~= selector_list());
    assert(strs_view(names@) =~= name_list());
    Page::parse(html, &selectors, &names)
}

/// The links put behind the origin where they are not absolute.
pub open spec fn prefixed_all(hrefs: Seq<Seq<char>>, origin: Seq<char>) -> Seq<Seq<char>> {
    Seq::new(hrefs.len(), |i: int| prefixed(hrefs[i], origin))
}

fn prefix_all(hrefs: &Vec<Vec<char>>, origin: &str) -> (out: Vec<Vec<char>>)
    ensures
        views(out@) == prefixed_all(views(hrefs@), origin@),
{
    let mut out: Vec<Vec<char>> = Vec::new();
    let mut i: usize = 0;
    while i < hrefs.len()
        invariant
            i <= hrefs.len(),
            out@.len() == i,
            forall|j: int| 0 <= j < i ==> (#[trigger] out@[j])@ == prefixed(hrefs@[j]@, origin@),
        decreases hrefs.len() - i,
    {
        out.push(make_prefixed(&hrefs[i], origin));
        i += 1;
    }
    assert(views(out@) =~= prefixed_all(views(hrefs@), origin@));
    out
}

/// The film links below the sections `sections`, section after section.
pub open spec fn links_below(nodes: Seq<NodeView>, sections: Seq<int>) -> Seq<Seq<char>>
    decreases sections.len(),
{
    if sections.len() == 0 {
        Seq::empty()
    } else {
        links_below(nodes, sections.drop_last()) + clean_lines(
            attrs_in(
                nodes,
                1,
                0,
                sections.last() + 1,
                subtree_end(nodes, sections.last()),
            ),
        )
    }
}

/// The addresses to visit for the series' page: the films that its
/// section links to, each once, ascending.
pub open spec fn visits_of(nodes: Seq<NodeView>) -> Seq<Seq<char>> {
    sorted_set(
        prefixed_all(
            links_below(nodes, matches_in(nodes, 0, 0, nodes.len() as int)),
            origin(),
        ),
    )
}

/// The addresses to visit for the series' page.
pub fn film_urls(page: &Page) -> (urls: Vec<Vec<char>>)
    ensures
        views(urls@) == visits_of(page@),
{
    let sections = page.select(0);
    let ghost all = sections@.map_values(|j: usize| j as int);
    let mut hrefs: Vec<Vec<char>> = Vec::new();
    let mut k: usize = 0;
    assert(views(hrefs@) =~= links_below(page@, all.take(0)));
    while k < sections.len()
        invariant
            k <= sections.len(),
            all == sections@.map_values(|j: usize| j as int),
            forall|k: int| 0 <= k < sections@.len() ==> #[trigger] sections@[k] < page@.len(),
            views(hrefs@) == links_below(page@, all.take(k as int)),
        decreases sections.len() - k,
    {
        proof {
            assert(all.take(k + 1).drop_last() == all.take(k as int));
            assert(all.take(k + 1).last() == sections@[k as int] as int);
        }
        let section = sections[k];
        let end = page.end_of(section);
        let ghost before = views(hrefs@);
        let mut more = clean(&page.attrs_range(1, 0, section + 1, end));
        let ghost added = views(more@);
        hrefs.append(&mut more);
        assert(views(hrefs@) =~= before + added);
        k += 1;
    }
    proof {
        assert(all.take(sections.len() as int) == all);
    }
    sort_unique(&prefix_all(&hrefs, "https://www.cinemacristallo.com"))
}

/// A line in lower case that starts with a label of the side column.
pub open spec fn labels_side(low: Seq<char>) -> bool {
    has_prefix(low, "data uscita"@) || has_prefix(low, "durata"@) || has_prefix(low, "genere"@)
}

/// Whether a line in lower case starts with a label of the side column.
pub fn is_side_label(low: &Vec<char>) -> (r: bool)
    ensures
        r == labels_side(low@),
{
    starts_with(low, &chars_of("data uscita")) || starts_with(low, &chars_of("durata"))
        || starts_with(low, &chars_of("genere"))
}

/// A line of the side column that is a label with its value.
pub open spec fn is_labelled(line: Seq<char>) -> bool {
    labels_side(lowercase(line))
}

/// The first line from `i` on that is no label: the film's title.
pub open spec fn side_title(lines: Seq<Seq<char>>, i: int) -> Option<Seq<char>>
    decreases lines.len() - i,
{
    if i < 0 || i >= lines.len() {
        None
    } else if !is_labelled(lines[i]) {
        Some(lines[i])
    } else {
        side_title(lines, i + 1)
    }
}

/// What stands behind the first colon of a line, trimmed; none where the
/// line has no colon or nothing behind it.
pub open spec fn value_of(line: Seq<char>) -> Option<Seq<char>> {
    match split_at_first(line, ':') {
        Some((_, rest)) => text_if_any(trimmed(rest)),
        None => None,
    }
}

/// The value of a line, given the line in lower case: what stands behind
/// its colon, where it starts with `label`.
pub open spec fn value_under(line: Seq<char>, low: Seq<char>, label: Seq<char>) -> Option<
    Seq<char>,
> {
    if has_prefix(low, label) {
        value_of(line)
    } else {
        None
    }
}

/// The value of the last line whose label starts with `label` and that
/// has a value.
pub open spec fn last_value(lines: Seq<Seq<char>>, label: Seq<char>) -> Option<Seq<char>>
    decreases lines.len(),
{
    if lines.len() == 0 {
        None
    } else if value_under(lines.last(), lowercase(lines.last()), label) is Some {
        value_under(lines.last(), lowercase(lines.last()), label)
    } else {
        last_value(lines.drop_last(), label)
    }
}

/// The minutes of a line that gives the duration in words behind a colon.
pub open spec fn duration_on(line: Seq<char>) -> Option<u32> {
    match split_at_first(line, ':') {
        Some((_, rest)) => minutes_in_words(rest),
        None => None,
    }
}

/// The minutes of a line, given the line in lower case: those that it
/// gives in words behind its colon, where it starts with `durata`.
pub open spec fn duration_under(line: Seq<char>, low: Seq<char>) -> Option<u32> {
    if has_prefix(low, "durata"@) {
        duration_on(line)
    } else {
        None
    }
}

/// The minutes of the last duration line that gives any.
pub open spec fn last_duration(lines: Seq<Seq<char>>) -> Option<u32>
    decreases lines.len(),
{
    if lines.len() == 0 {
        None
    } else if duration_under(lines.last(), lowercase(lines.last())) is Some {
        duration_under(lines.last(), lowercase(lines.last()))
    } else {
        last_duration(lines.drop_last())
    }
}

/// The value of a line under a label, given the line in lower case.
pub fn read_value_under(line: &Vec<char>, low: &Vec<char>, label: &str) -> (r: Option<Vec<char>>)
    ensures
        opt_chars(r) == value_under(line@, low@, label@),
{
    if starts_with(low, &chars_of(label)) {
        read_value(line)
    } else {
        None
    }
}

/// The minutes of a duration line, given the line in lower case.
pub fn read_duration_under(line: &Vec<char>, low: &Vec<char>) -> (r: Option<u32>)
    ensures
        r == duration_under(line@, low@),
{
    if starts_with(low, &chars_of("durata")) {
        match split_once(line, ':') {
            Some((_, rest)) => parse_hours_minutes(&rest),
            None => None,
        }
    } else {
        None
    }
}

fn find_side_title(lines: &Vec<Vec<char>>) -> (r: Option<Vec<char>>)
    ensures
        opt_chars(r) == side_title(views(lines@), 0),
{
    let mut i: usize = 0;
    while i < lines.len()
        invariant
            i <= lines.len(),
            side_title(views(lines@), i as int) == side_title(views(lines@), 0),
        decreases lines.len() - i,
    {
        if !is_side_label(&to_lowercase(&lines[i])) {
            return Some(copy(&lines[i]));
        }
        i += 1;
    }
    None
}

fn read_value(line: &Vec<char>) -> (r: Option<Vec<char>>)
    ensures
        opt_chars(r) == value_of(line@),
{
    match split_once(line, ':') {
        Some((_, rest)) => {
            let v = trim(&rest);
            if v.len() > 0 {
                Some(v)
            } else {
                None
            }
        },
        None => None,
    }
}

fn find_last_value(lines: &Vec<Vec<char>>, label: &str) -> (r: Option<Vec<char>>)
    ensures
        opt_chars(r) == last_value(views(lines@), label@),
{
    let mut found: Option<Vec<char>> = None;
    let mut i: usize = 0;
    assert(views(lines@).take(0) =~= Seq::<Seq<char>>::empty());
    while i < lines.len()
        invariant
            i <= lines.len(),
            opt_chars(found) == last_value(views(lines@).take(i as int), label@),
        decreases lines.len() - i,
    {
        proof {
            assert(views(lines@).take(i + 1).drop_last() == views(lines@).take(i as int));
            assert(views(lines@).take(i + 1).last() == lines@[i as int]@);
        }
        match read_value_under(&lines[i], &to_lowercase(&lines[i]), label) {
            Some(v) => {
                found = Some(v);
            },
            None => {},
        }
        i += 1;
    }
    proof {
        assert(views(lines@).take(lines.len() as int) == views(lines@));
    }
    found
}

fn find_last_duration(lines: &Vec<Vec<char>>) -> (r: Option<u32>)
    ensures
        r == last_duration(views(lines@)),
{
    let mut found: Option<u32> = None;
    let mut i: usize = 0;
    assert(views(lines@).take(0) =~= Seq::<Seq<char>>::empty());
    while i < lines.len()
        invariant
            i <= lines.len(),
            found == last_duration(views(lines@).take(i as int)),
        decreases lines.len() - i,
    {
        proof {
            assert(views(lines@).take(i + 1).drop_last() == views(lines@).take(i as int));
            assert(views(lines@).take(i + 1).last() == lines@[i as int]@);
        }
        let minutes = read_duration_under(&lines[i], &to_lowercase(&lines[i]));
        if minutes.is_some() {
            found = minutes;
        }
        i += 1;
    }
    proof {
        assert(views(lines@).take(lines.len() as int) == views(lines@));
    }
    found
}

/// The date of a showtime widget: the label in its title; empty where
/// it has none.
pub open spec fn widget_date(nodes: Seq<NodeView>, item: int) -> Seq<char> {
    match first_match(nodes, 5, item + 1, subtree_end(nodes, item)) {
        Some(t) => match first_line(nodes, 6, t + 1, subtree_end(nodes, t)) {
            Some(d) => d,
            None => Seq::empty(),
        },
        None => Seq::empty(),
    }
}

/// The first word from `i` on that is a time: it has a digit and a dot.
pub open spec fn time_word(tokens: Seq<Seq<char>>, i: int) -> Option<Seq<char>>
    decreases tokens.len() - i,
{
    if i < 0 || i >= tokens.len() {
        None
    } else if any_digit(tokens[i]) && tokens[i].contains('.') {
        Some(tokens[i])
    } else {
        time_word(tokens, i + 1)
    }
}

/// The phrases of a widget's entries from entry `from` up to `to`: for
/// each entry that holds a time, the date and the time, its dot made a colon.
pub open spec fn entry_phrases(nodes: Seq<NodeView>, date: Seq<char>, from: int, to: int) -> Seq<
    Seq<char>,
>
    decreases to - from,
{
    if from >= to {
        Seq::empty()
    } else if crate::page::hit(nodes, to - 1, 7) && time_word(
        words(line_of(nodes, to - 1)),
        0,
    ) is Some {
        entry_phrases(nodes, date, from, to - 1).push(
            date + " ore "@ + first_replaced(
                time_word(words(line_of(nodes, to - 1)), 0)->0,
                '.',
                ':',
            ),
        )
    } else {
        entry_phrases(nodes, date, from, to - 1)
    }
}

/// The phrases of one widget; none where it has no date.
pub open spec fn widget_phrases(nodes: Seq<NodeView>, item: int) -> Seq<Seq<char>> {
    if widget_date(nodes, item).len() == 0 {
        Seq::empty()
    } else {
        entry_phrases(nodes, widget_date(nodes, item), item + 1, subtree_end(nodes, item))
    }
}

/// The phrases of the widgets `items`, widget after widget.
pub open spec fn showtimes_in(nodes: Seq<NodeView>, items: Seq<int>) -> Seq<Seq<char>>
    decreases items.len(),
{
    if items.len() == 0 {
        Seq::empty()
    } else {
        showtimes_in(nodes, items.drop_last()) + widget_phrases(nodes, items.last())
    }
}

fn find_time_word(tokens: &Vec<Vec<char>>) -> (r: Option<Vec<char>>)
    ensures
        opt_chars(r) == time_word(views(tokens@), 0),
{
    let mut i: usize = 0;
    while i < tokens.len()
        invariant
            i <= tokens.len(),
            time_word(views(tokens@), i as int) == time_word(views(tokens@), 0),
        decreases tokens.len() - i,
    {
        if has_digit(&tokens[i]) && in_set('.', &tokens[i]) {
            return Some(copy(&tokens[i]));
        }
        i += 1;
    }
    None
}

fn read_widget(page: &Page, item: usize) -> (out: Vec<Vec<char>>)
    requires
        item < page@.len(),
    ensures
        views(out@) == widget_phrases(page@, item as int),
{
    let end = page.end_of(item);
    let mut out: Vec<Vec<char>> = Vec::new();
    assert(views(out@) =~= Seq::<Seq<char>>::empty());
    let date = match page.first_in_range(5, item + 1, end) {
        Some(t) => {
            let inner = page.end_of(t);
            match page.first_line_in_range(6, t + 1, inner) {
                Some(d) => d,
                None => Vec::new(),
            }
        },
        None => Vec::new(),
    };
    if date.len() == 0 {
        return out;
    }
    let at = chars_of(" ore ");
    let mut j: usize = item + 1;
    while j < end
        invariant
            item + 1 <= j <= end <= page@.len(),
            at@ == " ore "@,
            views(out@) == entry_phrases(page@, date@, item + 1, j as int),
        decreases end - j,
    {
        if page.is_hit(j, 7) {
            match find_time_word(&split_whitespace(&page.line(j))) {
                Some(t) => {
                    push_text(&mut out, concat(&concat(&date, &at), &replace_first(&t, '.', ':')));
                },
                None => {},
            }
        }
        j += 1;
    }
    out
}

/// The showtimes of a film page.
pub fn read_showtimes(page: &Page) -> (out: Vec<Vec<char>>)
    ensures
        views(out@) == showtimes_in(page@, matches_in(page@, 4, 0, page@.len() as int)),
{
    let items = page.select(4);
    let ghost all = items@.map_values(|j: usize| j as int);
    let mut out: Vec<Vec<char>> = Vec::new();
    let mut k: usize = 0;
    assert(views(out@) =~= showtimes_in(page@, all.take(0)));
    while k < items.len()
        invariant
            k <= items.len(),
            all == items@.map_values(|j: usize| j as int),
            forall|k: int| 0 <= k < items@.len() ==> #[trigger] items@[k] < page@.len(),
            views(out@) == showtimes_in(page@, all.take(k as int)),
        decreases items.len() - k,
    {
        proof {
            assert(all.take(k + 1).drop_last() == all.take(k as int));
            assert(all.take(k + 1).last() == items@[k as int] as int);
        }
        let ghost before = views(out@);
        let mut more = read_widget(page, items[k]);
        let ghost added = views(more@);
        out.append(&mut more);
        assert(views(out@) =~= before + added);
        k += 1;
    }
    proof {
        assert(all.take(items.len() as int) == all);
    }
    out
}

/// The heading of a page, where it has one that is not empty.
pub open spec fn heading_of(nodes: Seq<NodeView>, sel: int) -> Option<Seq<char>> {
    match first_line(nodes, sel, 0, nodes.len() as int) {
        Some(t) => text_if_any(t),
        None => None,
    }
}

/// The heading of a page, where it has one that is not empty.
pub fn extract_title_fallback(page: &Page, sel: usize) -> (r: Option<Vec<char>>)
    ensures
        opt_chars(r) == heading_of(page@, sel as int),
{
    match page.first_line_in_range(sel, 0, page.len()) {
        Some(t) => if t.len() > 0 {
            Some(t)
        } else {
            None
        },
        None => None,
    }
}

/// The address of the first image that selector `sel` matches, behind
/// the origin where it is not absolute; none where the image has no
/// address.
pub open spec fn poster_of(nodes: Seq<NodeView>, sel: int, origin: Seq<char>) -> Option<Seq<char>> {
    match first_match(nodes, sel, 0, nodes.len() as int) {
        Some(j) => match attr_of(nodes, j, 1) {
            Some(src) => if trimmed(src).len() > 0 {
                Some(prefixed(trimmed(src), origin))
            } else {
                None
            },
            None => None,
        },
        None => None,
    }
}

/// The poster of a page.
pub fn extract_poster(page: &Page, sel: usize, origin: &str) -> (r: Option<Vec<char>>)
    ensures
        opt_chars(r) == poster_of(page@, sel as int, origin@),
{
    match page.first(sel) {
        Some(j) => match page.attr(j, 1) {
            Some(src) => {
                let s = trim(&src);
                if s.len() > 0 {
                    Some(make_prefixed(&s, origin))
                } else {
                    None
                }
            },
            None => None,
        },
        None => None,
    }
}

/// The description of a page: the paragraphs of the first of the
/// selectors from `sel` up to `end` that has any, blank lines between.
pub open spec fn description_of(nodes: Seq<NodeView>, sel: int, end: int) -> Option<Seq<char>> {
    joined_if_any(first_paragraphs(nodes, sel, end), "\n\n"@)
}

/// The description of a page.
pub fn extract_synopsis(page: &Page, sel: usize, end: usize) -> (r: Option<String>)
    ensures
        opt_view(r) == description_of(page@, sel as int, end as int),
{
    join_if_any(&page.first_paragraphs_of(sel, end), "\n\n")
}

/// `text` under the venue's heading.
pub open spec fn under_heading(heading: Seq<char>, text: Option<Seq<char>>) -> Seq<char> {
    match text {
        Some(t) => heading + "\n\n"@ + t,
        None => heading,
    }
}

fn put_under(heading: &str, text: &Option<String>) -> (out: String)
    ensures
        out@ == under_heading(heading@, opt_view(*text)),
{
    match text {
        Some(t) => string_of(
            &concat(&concat(&chars_of(heading), &chars_of("\n\n")), &chars_of(t.as_str())),
        ),
        None => heading.to_owned(),
    }
}

/// The title of a film page of Cinema Cristallo: the first line of the
/// side column that is no label, or else the page's heading.
pub open spec fn title_of(nodes: Seq<NodeView>) -> Option<Seq<char>> {
    match first_match(nodes, 2, 0, nodes.len() as int) {
        Some(side) => first_of(
            side_title(clean_lines(texts_of(nodes, side)), 0),
            heading_of(nodes, 8),
        ),
        None => heading_of(nodes, 8),
    }
}

/// What a film page of Cinema Cristallo says of the film whose title is
/// `title`: everything where the page has its side column; poster and
/// description where it has none.
pub open spec fn titled_film(title: Seq<char>, url: Seq<char>, nodes: Seq<NodeView>) -> FilmView {
    match first_match(nodes, 2, 0, nodes.len() as int) {
        None => FilmView {
            title,
            url,
            poster_url: poster_of(nodes, 3, origin()),
            cast: None,
            release_date: None,
            running_time: None,
            synopsis: description_of(nodes, 9, 13),
            showtimes: None,
        },
        Some(side) => {
            let lines = clean_lines(texts_of(nodes, side));
            FilmView {
                title,
                url,
                poster_url: poster_of(nodes, 3, origin()),
                cast: match last_value(lines, "genere"@) {
                    Some(g) => Some("Genere: "@ + g),
                    None => None,
                },
                release_date: last_value(lines, "data uscita"@),
                running_time: last_duration(lines),
                synopsis: Some(
                    under_heading("Cinema: Cinema Cristallo Oderzo"@, description_of(nodes, 9, 13)),
                ),
                showtimes: list_if_any(
                    showtimes_in(nodes, matches_in(nodes, 4, 0, nodes.len() as int)),
                ),
            }
        },
    }
}

/// The record that a film page of Cinema Cristallo gives; none where the
/// page has no title.
pub open spec fn film_of(url: Seq<char>, nodes: Seq<NodeView>) -> Option<FilmView> {
    match title_of(nodes) {
        Some(title) => Some(titled_film(title, url, nodes)),
        None => None,
    }
}

/// Reads a film page of Cinema Cristallo.
pub fn film_from_page(url: &str, page: &Page) -> (r: Option<Film>)
    ensures
        match r {
            Some(f) => film_of(url@, page@) == Some(f@),
            None => film_of(url@, page@) is None,
        },
{
    let side = page.first(2);
    let lines = match side {
        Some(j) => clean(&page.texts(j)),
        None => Vec::new(),
    };
    let found = match side {
        Some(_) => find_side_title(&lines),
        None => None,
    };
    let title = match found {
        Some(t) => t,
        None => match extract_title_fallback(page, 8) {
            Some(t) => t,
            None => {
                return None;
            },
        },
    };
    let poster_url = opt_string(&extract_poster(page, 3, "https://www.cinemacristallo.com"));
    let description = extract_synopsis(page, 9, 13);
    match side {
        None => Some(
            Film {
                title: string_of(&title),
                url: url.to_owned(),
                poster_url,
                cast: None,
                release_date: None,
                running_time: None,
                synopsis: description,
                showtimes: None,
            },
        ),
        Some(_) => Some(
            Film {
                title: string_of(&title),
                url: url.to_owned(),
                poster_url,
                cast: match find_last_value(&lines, "genere") {
                    Some(g) => Some(string_of(&concat(&chars_of("Genere: "), &g))),
                    None => None,
                },
                release_date: opt_string(&find_last_value(&lines, "data uscita")),
                running_time: find_last_duration(&lines),
                synopsis: Some(put_under("Cinema: Cinema Cristallo Oderzo", &description)),
                showtimes: list_if_some(&read_showtimes(page)),
            },
        ),
    }
}

impl CinemaScraper for RassegneScraper {
    open spec fn listing_request(&self) -> RequestView {
        RequestView::get(self.url@)
    }

    open spec fn planned(&self, body: Seq<char>) -> Seq<FilmView> {
        bare_films(visits_of(page_of(body)))
    }

    open spec fn visits(&self) -> bool {
        true
    }

    open spec fn followed(&self, page: Seq<char>) -> Seq<Seq<char>> {
        Seq::empty()
    }

    open spec fn completed(
        &self,
        candidate: FilmView,
        page: Option<Seq<char>>,
        inner: Seq<Option<Seq<char>>>,
    ) -> Option<FilmView> {
        match page {
            Some(html) => film_of(candidate.url, page_of(html)),
            None => None,
        }
    }

    open spec fn feed_path(&self) -> Seq<char> {
        "rassegne.xml"@
    }

    open spec fn warm_up_request(&self) -> Option<RequestView> {
        None
    }

    fn listing(&self) -> (r: Request) {
        Request::get(self.url.clone())
    }

    fn plan(&self, body: &str) -> (out: Vec<Film>) {
        bare_candidates(&film_urls(&load(body)))
    }

    fn visits_candidates(&self) -> (b: bool) {
        true
    }

    fn follow(&self, page: &str) -> (urls: Vec<String>) {
        let urls: Vec<String> = Vec::new();
        assert(strings_view(urls@) =~= Seq::<Seq<char>>::empty());
        urls
    }

    fn complete(&self, candidate: &Film, page: &Option<String>, inner: &Vec<Option<String>>) -> (r:
        Option<Film>) {
        match page {
            Some(html) => film_from_page(candidate.url.as_str(), &load(html.as_str())),
            None => None,
        }
    }

    fn rss_filename(&self) -> (name: String) {
        "rassegne.xml".to_owned()
    }

    fn warm_up(&self) -> (r: Option<Request>) {
        None
    }

    proof fn lemma_failed_page_gives_nothing(
        &self,
        candidate: FilmView,
        inner: Seq<Option<Seq<char>>>,
    ) {
    }
}

/// The origin of Cinema Edera's site.
pub open spec fn edera_origin() -> Seq<char> {
    "https://www.cinemaedera.it"@
}

/// The selectors that Cinema Edera's series pages are asked: the links
/// to series; the heading; the places where the description may stand.
pub open spec fn edera_selector_list() -> Seq<Seq<char>> {
    seq![
        "a[href*=\"/rassegne/\"]"@,
        "h1"@,
        "div.amy-single-movie div.entry-content p"@,
        "div.amy-single-movie div.amy-single-movie-content p"@,
        "div.entry-content p"@,
        "article div.entry-content p"@,
    ]
}

/// The page that `html` parses to, as the source of Cinema Edera's
/// series reads it.
pub open spec fn edera_page_of(html: Seq<char>) -> Seq<NodeView> {
    scanned(html, edera_selector_list(), seq!["href"@])
}

/// Parses a page of Cinema Edera's series.
pub fn load_edera(html: &str) -> (page: Page)
    ensures
        page@ == edera_page_of(html@),
{
    let selectors = vec![
        "a[href*=\"/rassegne/\"]",
        "h1",
        "div.amy-single-movie div.entry-content p",
        "div.amy-single-movie div.amy-single-movie-content p",
        "div.entry-content p",
        "article div.entry-content p",
    ];
    let names = vec!["href"];
    assert(strs_view(selectors@) =~= edera_selector_list());
    assert(strs_view(names@) =~= seq!["href"@]);
    Page::parse(html, &selectors, &names)
}

/// The links to series pages among `hrefs`: all but those to the page
/// that lists the series.
pub open spec fn series_links(hrefs: Seq<Seq<char>>) -> Seq<Seq<char>>
    decreases hrefs.len(),
{
    if hrefs.len() == 0 {
        Seq::empty()
    } else if has_suffix(hrefs.last(), "/rassegne.html"@) {
        series_links(hrefs.drop_last())
    } else {
        series_links(hrefs.drop_last()).push(prefixed(hrefs.last(), edera_origin()))
    }
}

/// The addresses to visit for the page that lists the series: the series
/// pages that it links to, each once, ascending.
pub open spec fn series_of(nodes: Seq<NodeView>) -> Seq<Seq<char>> {
    sorted_set(series_links(clean_lines(attrs_in(nodes, 0, 0, 0, nodes.len() as int))))
}

/// The addresses to visit for the page that lists the series.
pub fn series_urls(page: &Page) -> (urls: Vec<Vec<char>>)
    ensures
        views(urls@) == series_of(page@),
{
    let hrefs = clean(&page.attr_values(0, 0));
    let listing = chars_of("/rassegne.html");
    let mut found: Vec<Vec<char>> = Vec::new();
    let mut i: usize = 0;
    assert(views(found@) =~= series_links(views(hrefs@).take(0)));
    while i < hrefs.len()
        invariant
            i <= hrefs.len(),
            listing@ == "/rassegne.html"@,
            views(found@) == series_links(views(hrefs@).take(i as int)),
        decreases hrefs.len() - i,
    {
        proof {
            assert(views(hrefs@).take(i + 1).drop_last() == views(hrefs@).take(i as int));
            assert(views(hrefs@).take(i + 1).last() == hrefs@[i as int]@);
        }
        if !ends_with(&hrefs[i], &listing) {
            push_text(&mut found, make_prefixed(&hrefs[i], "https://www.cinemaedera.it"));
        }
        i += 1;
    }
    proof {
        assert(views(hrefs@).take(hrefs.len() as int) == views(hrefs@));
    }
    sort_unique(&found)
}

/// What the page of the series with the title `title` says of it: the
/// line that gives its dates; and under the venue's name those dates and
/// the description.
pub open spec fn titled_series(title: Seq<char>, url: Seq<char>, nodes: Seq<NodeView>) -> FilmView {
    let dates = first_with_prefix(
        clean_lines(texts_in(nodes, 0, nodes.len() as int)),
        "Dal "@,
        0,
    );
    FilmView {
        title,
        url,
        poster_url: None,
        cast: None,
        release_date: dates,
        running_time: None,
        synopsis: joined_if_any(
            seq!["Cinema: Cinema Edera"@] + one_if(dates) + one_if(description_of(nodes, 2, 6)),
            "\n\n"@,
        ),
        showtimes: None,
    }
}

/// The record of a series: its heading for a title, and what its page
/// says of it; none where the page has no heading with text in it.
pub open spec fn series_of_page(url: Seq<char>, nodes: Seq<NodeView>) -> Option<FilmView> {
    match heading_of(nodes, 1) {
        Some(title) => Some(titled_series(title, url, nodes)),
        None => None,
    }
}

/// Reads the page of a series.
pub fn series_from_page(url: &str, page: &Page) -> (r: Option<Film>)
    ensures
        match r {
            Some(f) => series_of_page(url@, page@) == Some(f@),
            None => series_of_page(url@, page@) is None,
        },
{
    let title = match extract_title_fallback(page, 1) {
        Some(t) => t,
        None => {
            return None;
        },
    };
    let dates = find_with_prefix(&clean(&page.all_texts()), "Dal ");
    let mut parts: Vec<Vec<char>> = Vec::new();
    push_text(&mut parts, chars_of("Cinema: Cinema Edera"));
    assert(views(parts@) =~= seq!["Cinema: Cinema Edera"@]);
    match &dates {
        Some(d) => {
            push_text(&mut parts, copy(d));
        },
        None => {},
    }
    assert(views(parts@) =~= seq!["Cinema: Cinema Edera"@] + one_if(opt_chars(dates)));
    match extract_synopsis(page, 2, 6) {
        Some(text) => {
            push_text(&mut parts, chars_of(text.as_str()));
        },
        None => {},
    }
    assert(views(parts@) =~= seq!["Cinema: Cinema Edera"@] + one_if(opt_chars(dates)) + one_if(
        description_of(page@, 2, 6),
    ));
    Some(
        Film {
            title: string_of(&title),
            url: url.to_owned(),
            poster_url: None,
            cast: None,
            release_date: opt_string(&dates),
            running_time: None,
            synopsis: join_if_any(&parts, "\n\n"),
            showtimes: None,
        },
    )
}

impl CinemaScraper for EderaRassegneScraper {
    open spec fn listing_request(&self) -> RequestView {
        RequestView::get(self.url@)
    }

    open spec fn planned(&self, body: Seq<char>) -> Seq<FilmView> {
        bare_films(series_of(edera_page_of(body)))
    }

    open spec fn visits(&self) -> bool {
        true
    }

    open spec fn followed(&self, page: Seq<char>) -> Seq<Seq<char>> {
        Seq::empty()
    }

    open spec fn completed(
        &self,
        candidate: FilmView,
        page: Option<Seq<char>>,
        inner: Seq<Option<Seq<char>>>,
    ) -> Option<FilmView> {
        match page {
            Some(html) => series_of_page(candidate.url, edera_page_of(html)),
            None => None,
        }
    }

    open spec fn feed_path(&self) -> Seq<char> {
        "rassegne_edera.xml"@
    }

    open spec fn warm_up_request(&self) -> Option<RequestView> {
        None
    }

    fn listing(&self) -> (r: Request) {
        Request::get(self.url.clone())
    }

    fn plan(&self, body: &str) -> (out: Vec<Film>) {
        bare_candidates(&series_urls(&load_edera(body)))
    }

    fn visits_candidates(&self) -> (b: bool) {
        true
    }

    fn follow(&self, page: &str) -> (urls: Vec<String>) {
        let urls: Vec<String> = Vec::new();
        assert(strings_view(urls@) =~= Seq::<Seq<char>>::empty());
        urls
    }

    fn complete(&self, candidate: &Film, page: &Option<String>, inner: &Vec<Option<String>>) -> (r:
        Option<Film>) {
        match page {
            Some(html) => series_from_page(candidate.url.as_str(), &load_edera(html.as_str())),
            None => None,
        }
    }

    fn rss_filename(&self) -> (name: String) {
        "rassegne_edera.xml".to_owned()
    }

    fn warm_up(&self) -> (r: Option<Request>) {
        None
    }

    proof fn lemma_failed_page_gives_nothing(
        &self,
        candidate: FilmView,
        inner: Seq<Option<Seq<char>>>,
    ) {
    }
}

} // verus!
