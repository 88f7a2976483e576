//! Cinema sites of the Edera kind (Cinema Edera, Cinema Manzoni): a
//! timetable of the week, and one page per film.

use crate::crawl::{CinemaScraper, Request, RequestView};
use crate::discover::{arrange, arranged};
use crate::gather::one_if;
use crate::film::{
    films_view, join_if_any, joined_if_any, list_if_any, list_if_some, opt_chars, opt_view,
    strings_view, Film, FilmView,
};
use crate::lines::{filled, keep_filled, run, run_together};
use crate::links::{make_prefixed, prefixed};
use crate::merge::first_of;
use crate::number::{parse_u32, parsed_u32};
use crate::page::{
    attr_of, first_match, first_run, hit, matches_in, runs_of, scanned, strs_view, subtree_end,
    texts_of, NodeView, Page,
};
use crate::text::{
    chars_of, concat, contains, copy, find, find_char, first_at, has_prefix, in_set, index_of,
    lemma_first_at, lemma_index_of, lowercase, occurs_in, push_text, same, slice, starts_with,
    string_of, to_lowercase, trim, trimmed, views,
};
use crate::tokens::{split_at_first, split_once, split_whitespace, words};
use vstd::prelude::*;

verus! {

/// The origin of an address: what stands before the first slash behind
/// `://`, or before the first slash where there is no `://`.
pub open spec fn origin_of(url: Seq<char>) -> Seq<char> {
    let start = match first_at(url, "://"@, 0) {
        Some(i) => i + 3,
        None => 0,
    };
    match index_of(url.skip(start), '/') {
        Some(i) => url.take(start + i),
        None => url,
    }
}

/// The origin of a listing address.
pub fn base_from_listing_url(listing_url: &str) -> (base: String)
    ensures
        base@ == origin_of(listing_url@),
{
    let url = chars_of(listing_url);
    let start: usize = match find(&url, &chars_of("://")) {
        Some(i) => {
            proof {
                lemma_first_at(url@, "://"@, 0);
                reveal_strlit("://");
                assert("://"@.len() == 3);
                assert(crate::text::occurs_at(url@, "://"@, i as int));
            }
            assert(i + 3 <= url.len());
            i + 3
        },
        None => 0,
    };
    let rest = slice(&url, start, url.len());
    assert(rest@ == url@.skip(start as int));
    match find_char(&rest, '/') {
        Some(i) => {
            proof {
                lemma_index_of(rest@, '/');
            }
            string_of(&slice(&url, 0, start + i))
        },
        None => listing_url.to_owned(),
    }
}

/// The source of an Edera-kind site's week.
#[derive(Debug, Clone)]
pub struct CinemaEderaScraper {
    pub url: String,
    /// The site's origin.
    pub base: String,
}

impl CinemaEderaScraper {
    /// A source for the week's page at the given address.
    pub fn new(url: String) -> (scraper: Self)
        ensures
            scraper.url@ == url@,
            scraper.base@ == origin_of(url@),
    {
        let base = base_from_listing_url(url.as_str());
        CinemaEderaScraper { url, base }
    }
}

/// The selectors that the site's pages are asked: the timetable, its
/// rows, their film links and the titles in them; on a film page the
/// poster, the running time, the options block and its paragraphs, the
/// plot, headings and highlights of the main content, and the showtimes
/// block with its groups, their day and their times.
pub open spec fn selector_list() -> Seq<Seq<char>> {
    seq![
        "#timetable"@,
        "tbody tr"@,
        "a.category__item"@,
        "strong"@,
        ".movie__images img.img-responsive"@,
        "p.movie__time"@,
        "div.movie__option"@,
        "p"@,
        "p.movie__describe"@,
        "#main-content-wrapper section h3"@,
        "#main-content-wrapper section strong"@,
        "div.time-select"@,
        "div.time-select__group"@,
        "p.time-select__place"@,
        "li.time-select__item"@,
    ]
}

/// The attributes that are read: `href` and `src`.
pub open spec fn name_list() -> Seq<Seq<char>> {
    seq!["href"@, "src"@]
}

/// The page that `html` parses to, as this source reads it.
pub open spec fn page_of(html: Seq<char>) -> Seq<NodeView> {
    scanned(html, selector_list(), name_list())
}

/// Parses a page of the site.
pub fn load(html: &str) -> (page: Page)
    ensures
        page@ == page_of(html@),
{
    let selectors = vec![
        "#timetable",
        "tbody tr",
        "a.category__item",
        "strong",
        ".movie__images img.img-responsive",
        "p.movie__time",
        "div.movie__option",
        "p",
        "p.movie__describe",
        "#main-content-wrapper section h3",
        "#main-content-wrapper section strong",
        "div.time-select",
        "div.time-select__group",
        "p.time-select__place",
        "li.time-select__item",
    ];
    let names = vec!["href", "src"];
    assert(strs_view(selectors@) =~= selector_list());
    assert(strs_view(names@) =~= name_list());
    Page::parse(html, &selectors, &names)
}

/// The candidate that a film link of the timetable gives: the title in
/// it and the address that it names; none where either is missing.
pub open spec fn link_entry(nodes: Seq<NodeView>, base: Seq<char>, link: int) -> Option<FilmView> {
    let href = match attr_of(nodes, link, 0) {
        Some(h) => h,
        None => Seq::empty(),
    };
    let title = match first_run(nodes, 3, link + 1, subtree_end(nodes, link)) {
        Some(t) => t,
        None => Seq::empty(),
    };
    if title.len() > 0 && href.len() > 0 {
        Some(FilmView::bare(title, base + href))
    } else {
        None
    }
}

/// The candidates of the film links from `from` up to `to`, in order.
pub open spec fn link_entries(nodes: Seq<NodeView>, base: Seq<char>, from: int, to: int) -> Seq<
    FilmView,
>
    decreases to - from,
{
    if from >= to {
        Seq::empty()
    } else if hit(nodes, to - 1, 2) && link_entry(nodes, base, to - 1) is Some {
        link_entries(nodes, base, from, to - 1).push(link_entry(nodes, base, to - 1)->0)
    } else {
        link_entries(nodes, base, from, to - 1)
    }
}

/// The candidates of the rows `rows`, row after row.
pub open spec fn row_entries(nodes: Seq<NodeView>, base: Seq<char>, rows: Seq<int>) -> Seq<
    FilmView,
>
    decreases rows.len(),
{
    if rows.len() == 0 {
        Seq::empty()
    } else {
        row_entries(nodes, base, rows.drop_last()) + link_entries(
            nodes,
            base,
            rows.last() + 1,
            subtree_end(nodes, rows.last()),
        )
    }
}

/// The candidates of a week's page: the films of its timetable, one per
/// address, ascending by address. A page without timetable has none.
pub open spec fn candidates_of(nodes: Seq<NodeView>, base: Seq<char>) -> Seq<FilmView> {
    match first_match(nodes, 0, 0, nodes.len() as int) {
        Some(table) => arranged(
            row_entries(
                nodes,
                base,
                matches_in(nodes, 1, table + 1, subtree_end(nodes, table)),
            ),
        ),
        None => Seq::empty(),
    }
}

fn read_link(page: &Page, base: &Vec<char>, link: usize) -> (r: Option<Film>)
    requires
        link < page@.len(),
    ensures
        match r {
            Some(f) => link_entry(page@, base@, link as int) == Some(f@),
            None => link_entry(page@, base@, link as int) is None,
        },
{
    let href = match page.attr(link, 0) {
        Some(h) => h,
        None => Vec::new(),
    };
    let end = page.end_of(link);
    let title = match page.first_run_in_range(3, link + 1, end) {
        Some(t) => t,
        None => Vec::new(),
    };
    if title.len() > 0 && href.len() > 0 {
        Some(Film::bare(string_of(&title), string_of(&concat(base, &href))))
    } else {
        None
    }
}

fn read_row(page: &Page, base: &Vec<char>, row: usize) -> (out: Vec<Film>)
    requires
        row < page@.len(),
    ensures
        films_view(out@) == link_entries(
            page@,
            base@,
            row + 1,
            subtree_end(page@, row as int),
        ),
{
    let end = page.end_of(row);
    let mut out: Vec<Film> = Vec::new();
    assert(films_view(out@) =~= Seq::<FilmView>::empty());
    let mut j: usize = row + 1;
    while j < end
        invariant
            row + 1 <= j <= end <= page@.len(),
            films_view(out@) == link_entries(page@, base@, row + 1, j as int),
        decreases end - j,
    {
        if page.is_hit(j, 2) {
            match read_link(page, base, j) {
                Some(f) => {
                    let ghost before = films_view(out@);
                    out.push(f);
                    assert(films_view(out@) =~= before.push(f@));
                },
                None => {},
            }
        }
        j += 1;
    }
    out
}

/// The candidates of a week's page.
pub fn read_timetable(page: &Page, base: &str) -> (out: Vec<Film>)
    ensures
        films_view(out@) == candidates_of(page@, base@),
{
    let table = match page.first(0) {
        Some(t) => t,
        None => {
            let none: Vec<Film> = Vec::new();
            assert(films_view(none@) =~= Seq::<FilmView>::empty());
            return none;
        },
    };
    let origin = chars_of(base);
    let rows = page.select_in(table, 1);
    let ghost all = rows@.map_values(|j: usize| j as int);
    let mut found: Vec<Film> = Vec::new();
    let mut k: usize = 0;
    assert(films_view(found@) =~= row_entries(page@, base@, all.take(0)));
    while k < rows.len()
        invariant
            k <= rows.len(),
            origin@ == base@,
            all == rows@.map_values(|j: usize| j as int),
            forall|k: int| 0 <= k < rows@.len() ==> #[trigger] rows@[k] < page@.len(),
            films_view(found@) == row_entries(page@, base@, all.take(k as int)),
        decreases rows.len() - k,
    {
        proof {
            assert(all.take(k + 1).drop_last() == all.take(k as int));
            assert(all.take(k + 1).last() == rows@[k as int] as int);
        }
        let ghost before = films_view(found@);
        let mut more = read_row(page, &origin, rows[k]);
        let ghost added = films_view(more@);
        found.append(&mut more);
        assert(films_view(found@) =~= before + added);
        k += 1;
    }
    proof {
        assert(all.take(rows.len() as int) == all);
    }
    arrange(&found)
}

/// The label of an option: what stands before its first colon, trimmed.
pub open spec fn option_label(text: Seq<char>) -> Option<Seq<char>> {
    match split_at_first(text, ':') {
        Some((l, _)) => Some(trimmed(l)),
        None => None,
    }
}

/// The value of an option: what stands behind its first colon, trimmed.
pub open spec fn option_value(text: Seq<char>) -> Seq<char> {
    match split_at_first(text, ':') {
        Some((_, v)) => trimmed(v),
        None => Seq::empty(),
    }
}

/// The value of the last option with the given label.
pub open spec fn last_option(texts: Seq<Seq<char>>, label: Seq<char>) -> Option<Seq<char>>
    decreases texts.len(),
{
    if texts.len() == 0 {
        None
    } else if option_label(texts.last()) == Some(label) {
        Some(option_value(texts.last()))
    } else {
        last_option(texts.drop_last(), label)
    }
}

/// The options other than cast and year, each as label and value.
pub open spec fn other_options(texts: Seq<Seq<char>>) -> Seq<Seq<char>>
    decreases texts.len(),
{
    if texts.len() == 0 {
        Seq::empty()
    } else {
        match option_label(texts.last()) {
            Some(l) => if l == "Cast"@ || l == "Anno"@ {
                other_options(texts.drop_last())
            } else {
                other_options(texts.drop_last()).push(l + ": "@ + option_value(texts.last()))
            },
            None => other_options(texts.drop_last()),
        }
    }
}

/// A text in lower case that labels the film's data or the showtimes.
pub open spec fn labels_data(low: Seq<char>) -> bool {
    has_prefix(low, "genere"@) || has_prefix(low, "paese"@) || has_prefix(low, "regia"@)
        || has_prefix(low, "cast"@) || has_prefix(low, "anno"@) || has_prefix(low, "lingua"@)
        || occurs_in(low, "orari spettacoli"@)
}

/// A highlight that only labels the film's data or the showtimes.
pub open spec fn is_data_label(text: Seq<char>) -> bool {
    labels_data(lowercase(text))
}

/// The highlights that belong to the description.
pub open spec fn highlights(texts: Seq<Seq<char>>) -> Seq<Seq<char>>
    decreases texts.len(),
{
    if texts.len() == 0 {
        Seq::empty()
    } else if texts.last().len() > 0 && !is_data_label(texts.last()) {
        highlights(texts.drop_last()).push(texts.last())
    } else {
        highlights(texts.drop_last())
    }
}

/// The texts of the options of a film page.
pub open spec fn options_of(nodes: Seq<NodeView>) -> Seq<Seq<char>> {
    match first_match(nodes, 6, 0, nodes.len() as int) {
        Some(b) => runs_of(nodes, matches_in(nodes, 7, b + 1, subtree_end(nodes, b))),
        None => Seq::empty(),
    }
}

/// The text with nothing where it is empty.
pub open spec fn filled_text(o: Option<Seq<char>>) -> Option<Seq<char>> {
    match o {
        Some(t) => if t.len() > 0 {
            Some(t)
        } else {
            None
        },
        None => None,
    }
}

/// The description of a film page: the other options on one line, the
/// plot, and the headings and highlights of the main content.
pub open spec fn description_of(nodes: Seq<NodeView>) -> Option<Seq<char>> {
    let n = nodes.len() as int;
    joined_if_any(
        one_if(joined_if_any(other_options(options_of(nodes)), " | "@)) + one_if(
            filled_text(first_run(nodes, 8, 0, n)),
        ) + filled(runs_of(nodes, matches_in(nodes, 9, 0, n))) + highlights(
            runs_of(nodes, matches_in(nodes, 10, 0, n)),
        ),
        "\n\n"@,
    )
}

/// The first word from `i` on that holds a colon.
pub open spec fn time_word(tokens: Seq<Seq<char>>, i: int) -> Option<Seq<char>>
    decreases tokens.len() - i,
{
    if i < 0 || i >= tokens.len() {
        None
    } else if tokens[i].contains(':') {
        Some(tokens[i])
    } else {
        time_word(tokens, i + 1)
    }
}

/// The time of a showtime item.
pub open spec fn item_time(nodes: Seq<NodeView>, j: int) -> Option<Seq<char>> {
    time_word(words(run_together(texts_of(nodes, j))), 0)
}

/// The phrases of the showtime items from `from` up to `to` under the
/// day `day`.
pub open spec fn item_phrases(nodes: Seq<NodeView>, day: Seq<char>, from: int, to: int) -> Seq<
    Seq<char>,
>
    decreases to - from,
{
    if from >= to {
        Seq::empty()
    } else if hit(nodes, to - 1, 14) && item_time(nodes, to - 1) is Some {
        item_phrases(nodes, day, from, to - 1).push(day + " ore "@ + item_time(nodes, to - 1)->0)
    } else {
        item_phrases(nodes, day, from, to - 1)
    }
}

/// The phrases of one group of showtimes; none where it names no day.
pub open spec fn group_phrases(nodes: Seq<NodeView>, g: int) -> Seq<Seq<char>> {
    let end = subtree_end(nodes, g);
    match filled_text(first_run(nodes, 13, g + 1, end)) {
        Some(day) => item_phrases(nodes, day, g + 1, end),
        None => Seq::empty(),
    }
}

/// The phrases of the groups `groups`, group after group.
pub open spec fn groups_phrases(nodes: Seq<NodeView>, groups: Seq<int>) -> Seq<Seq<char>>
    decreases groups.len(),
{
    if groups.len() == 0 {
        Seq::empty()
    } else {
        groups_phrases(nodes, groups.drop_last()) + group_phrases(nodes, groups.last())
    }
}

/// The showtimes of a film page.
pub open spec fn showtimes_of(nodes: Seq<NodeView>) -> Seq<Seq<char>> {
    match first_match(nodes, 11, 0, nodes.len() as int) {
        Some(b) => groups_phrases(nodes, matches_in(nodes, 12, b + 1, subtree_end(nodes, b))),
        None => Seq::empty(),
    }
}

/// The poster of a film page.
pub open spec fn poster_of(nodes: Seq<NodeView>, base: Seq<char>) -> Option<Seq<char>> {
    match first_match(nodes, 4, 0, nodes.len() as int) {
        Some(j) => match attr_of(nodes, j, 1) {
            Some(src) => Some(prefixed(src, base)),
            None => None,
        },
        None => None,
    }
}

/// The running time of a film page: the number that its first word is.
pub open spec fn minutes_of(nodes: Seq<NodeView>) -> Option<u32> {
    match first_match(nodes, 5, 0, nodes.len() as int) {
        Some(j) => if words(run_together(texts_of(nodes, j))).len() > 0 {
            parsed_u32(words(run_together(texts_of(nodes, j)))[0])
        } else {
            None
        },
        None => None,
    }
}

/// The candidate with what its film page adds: each field that the page
/// has takes the place of the candidate's.
pub open spec fn enriched(candidate: FilmView, nodes: Seq<NodeView>, base: Seq<char>) -> FilmView {
    FilmView {
        title: candidate.title,
        url: candidate.url,
        poster_url: first_of(poster_of(nodes, base), candidate.poster_url),
        cast: first_of(last_option(options_of(nodes), "Cast"@), candidate.cast),
        release_date: first_of(last_option(options_of(nodes), "Anno"@), candidate.release_date),
        running_time: first_of(minutes_of(nodes), candidate.running_time),
        synopsis: first_of(description_of(nodes), candidate.synopsis),
        showtimes: first_of(list_if_any(showtimes_of(nodes)), candidate.showtimes),
    }
}

fn read_label(text: &Vec<char>) -> (r: Option<(Vec<char>, Vec<char>)>)
    ensures
        match r {
            Some((l, v)) => option_label(text@) == Some(l@) && option_value(text@) == v@,
            None => option_label(text@) is None,
        },
{
    match split_once(text, ':') {
        Some((l, v)) => Some((trim(&l), trim(&v))),
        None => None,
    }
}

fn find_last_option(texts: &Vec<Vec<char>>, label: &str) -> (r: Option<Vec<char>>)
    ensures
        opt_chars(r) == last_option(views(texts@), label@),
{
    let name = chars_of(label);
    let mut found: Option<Vec<char>> = None;
    let mut i: usize = 0;
    assert(views(texts@).take(0) =~= Seq::<Seq<char>>::empty());
    while i < texts.len()
        invariant
            i <= texts.len(),
            name@ == label@,
            opt_chars(found) == last_option(views(texts@).take(i as int), label@),
        decreases texts.len() - i,
    {
        proof {
            assert(views(texts@).take(i + 1).drop_last() == views(texts@).take(i as int));
            assert(views(texts@).take(i + 1).last() == texts@[i as int]@);
        }
        match read_label(&texts[i]) {
            Some((l, v)) => {
                if same(&l, &name) {
                    found = Some(v);
                }
            },
            None => {},
        }
        i += 1;
    }
    proof {
        assert(views(texts@).take(texts.len() as int) == views(texts@));
    }
    found
}

fn read_other_options(texts: &Vec<Vec<char>>) -> (out: Vec<Vec<char>>)
    ensures
        views(out@) == other_options(views(texts@)),
{
    let cast = chars_of("Cast");
    let year = chars_of("Anno");
    let colon = chars_of(": ");
    let mut out: Vec<Vec<char>> = Vec::new();
    let mut i: usize = 0;
    assert(views(out@) =~= other_options(views(texts@).take(0)));
    while i < texts.len()
        invariant
            i <= texts.len(),
            cast@ == "Cast"@,
            year@ == "Anno"@,
            colon@ == ": "@,
            views(out@) == other_options(views(texts@).take(i as int)),
        decreases texts.len() - i,
    {
        proof {
            assert(views(texts@).take(i + 1).drop_last() == views(texts@).take(i as int));
            assert(views(texts@).take(i + 1).last() == texts@[i as int]@);
        }
        match read_label(&texts[i]) {
            Some((l, v)) => {
                if !(same(&l, &cast) || same(&l, &year)) {
                    push_text(&mut out, concat(&concat(&l, &colon), &v));
                }
            },
            None => {},
        }
        i += 1;
    }
    proof {
        assert(views(texts@).take(texts.len() as int) == views(texts@));
    }
    out
}

fn data_label(text: &Vec<char>) -> (r: bool)
    ensures
        r == is_data_label(text@),
{
    is_label_of_data(&to_lowercase(text))
}

/// Whether a text in lower case labels the film's data or the showtimes.
pub fn is_label_of_data(l: &Vec<char>) -> (r: bool)
    ensures
        r == labels_data(l@),
{
    starts_with(l, &chars_of("genere")) || starts_with(l, &chars_of("paese")) || starts_with(
        l,
        &chars_of("regia"),
    ) || starts_with(l, &chars_of("cast")) || starts_with(l, &chars_of("anno")) || starts_with(
        l,
        &chars_of("lingua"),
    ) || contains(l, &chars_of("orari spettacoli"))
}

fn read_highlights(texts: &Vec<Vec<char>>) -> (out: Vec<Vec<char>>)
    ensures
        views(out@) == highlights(views(texts@)),
{
    let mut out: Vec<Vec<char>> = Vec::new();
    let mut i: usize = 0;
    assert(views(out@) =~= highlights(views(texts@).take(0)));
    while i < texts.len()
        invariant
            i <= texts.len(),
            views(out@) == highlights(views(texts@).take(i as int)),
        decreases texts.len() - i,
    {
        proof {
            assert(views(texts@).take(i + 1).drop_last() == views(texts@).take(i as int));
            assert(views(texts@).take(i + 1).last() == texts@[i as int]@);
        }
        if texts[i].len() > 0 && !data_label(&texts[i]) {
            push_text(&mut out, copy(&texts[i]));
        }
        i += 1;
    }
    proof {
        assert(views(texts@).take(texts.len() as int) == views(texts@));
    }
    out
}

fn read_options(page: &Page) -> (out: Vec<Vec<char>>)
    ensures
        views(out@) == options_of(page@),
{
    match page.first(6) {
        Some(b) => {
            let found = page.select_in(b, 7);
            page.runs(&found)
        },
        None => {
            let none: Vec<Vec<char>> = Vec::new();
            assert(views(none@) =~= Seq::<Seq<char>>::empty());
            none
        },
    }
}

fn read_description(page: &Page, options: &Vec<Vec<char>>) -> (r: Option<String>)
    requires
        views(options@) == options_of(page@),
    ensures
        opt_view(r) == description_of(page@),
{
    let n = page.len();
    let mut parts: Vec<Vec<char>> = Vec::new();
    assert(views(parts@) =~= Seq::<Seq<char>>::empty());
    let ghost a = one_if(joined_if_any(other_options(options_of(page@)), " | "@));
    let ghost b = one_if(filled_text(first_run(page@, 8, 0, n as int)));
    let ghost c = filled(runs_of(page@, matches_in(page@, 9, 0, n as int)));
    let ghost d = highlights(runs_of(page@, matches_in(page@, 10, 0, n as int)));
    match join_if_any(&read_other_options(options), " | ") {
        Some(t) => {
            push_text(&mut parts, chars_of(t.as_str()));
        },
        None => {},
    }
    assert(views(parts@) =~= a);
    match page.first_run_in_range(8, 0, n) {
        Some(t) => {
            if t.len() > 0 {
                push_text(&mut parts, t);
            }
        },
        None => {},
    }
    assert(views(parts@) =~= a + b);
    let headings = page.select(9);
    let mut more = keep_filled(&page.runs(&headings));
    let ghost added = views(more@);
    parts.append(&mut more);
    assert(views(parts@) =~= (a + b) + added);
    let marked = page.select(10);
    let mut last = read_highlights(&page.runs(&marked));
    let ghost tail = views(last@);
    parts.append(&mut last);
    assert(views(parts@) =~= ((a + b) + added) + tail);
    assert(views(parts@) =~= a + b + c + d);
    join_if_any(&parts, "\n\n")
}

fn find_time_word(tokens: &Vec<Vec<char>>) -> (r: Option<Vec<char>>)
    ensures
        opt_chars(r) == time_word(views(tokens@), 0),
{
    let mut i: usize = 0;
    while i < tokens.len()
        invariant
            i <= tokens.len(),
            time_word(views(tokens@), i as int) == time_word(views(tokens@), 0),
        decreases tokens.len() - i,
    {
        if in_set(':', &tokens[i]) {
            return Some(copy(&tokens[i]));
        }
        i += 1;
    }
    None
}

fn read_group(page: &Page, g: usize) -> (out: Vec<Vec<char>>)
    requires
        g < page@.len(),
    ensures
        views(out@) == group_phrases(page@, g as int),
{
    let end = page.end_of(g);
    let mut out: Vec<Vec<char>> = Vec::new();
    assert(views(out@) =~= Seq::<Seq<char>>::empty());
    let day = match page.first_run_in_range(13, g + 1, end) {
        Some(t) => t,
        None => Vec::new(),
    };
    if day.len() == 0 {
        return out;
    }
    let at = chars_of(" ore ");
    let mut j: usize = g + 1;
    while j < end
        invariant
            g + 1 <= j <= end <= page@.len(),
            at@ == " ore "@,
            views(out@) == item_phrases(page@, day@, g + 1, j as int),
        decreases end - j,
    {
        if page.is_hit(j, 14) {
            match find_time_word(&split_whitespace(&run(&page.texts(j)))) {
                Some(t) => {
                    push_text(&mut out, concat(&concat(&day, &at), &t));
                },
                None => {},
            }
        }
        j += 1;
    }
    out
}

fn read_showtimes(page: &Page) -> (out: Vec<Vec<char>>)
    ensures
        views(out@) == showtimes_of(page@),
{
    let mut out: Vec<Vec<char>> = Vec::new();
    assert(views(out@) =~= Seq::<Seq<char>>::empty());
    let b = match page.first(11) {
        Some(b) => b,
        None => {
            return out;
        },
    };
    let groups = page.select_in(b, 12);
    let ghost all = groups@.map_values(|j: usize| j as int);
    let mut k: usize = 0;
    assert(views(out@) =~= groups_phrases(page@, all.take(0)));
    while k < groups.len()
        invariant
            k <= groups.len(),
            all == groups@.map_values(|j: usize| j as int),
            forall|k: int| 0 <= k < groups@.len() ==> #[trigger] groups@[k] < page@.len(),
            views(out@) == groups_phrases(page@, all.take(k as int)),
        decreases groups.len() - k,
    {
        proof {
            assert(all.take(k + 1).drop_last() == all.take(k as int));
            assert(all.take(k + 1).last() == groups@[k as int] as int);
        }
        let ghost before = views(out@);
        let mut more = read_group(page, groups[k]);
        let ghost added = views(more@);
        out.append(&mut more);
        assert(views(out@) =~= before + added);
        k += 1;
    }
    proof {
        assert(all.take(groups.len() as int) == all);
    }
    out
}

/// The candidate with what its film page adds.
pub fn enrich(candidate: &Film, page: &Page, base: &str) -> (film: Film)
    ensures
        film@ == enriched(candidate@, page@, base@),
{
    let options = read_options(page);
    let poster = match page.first(4) {
        Some(j) => match page.attr(j, 1) {
            Some(src) => Some(string_of(&make_prefixed(&src, base))),
            None => None,
        },
        None => None,
    };
    let minutes = match page.first(5) {
        Some(j) => {
            let tokens = split_whitespace(&run(&page.texts(j)));
            if tokens.len() > 0 {
                assert(views(tokens@)[0] == tokens@[0]@);
                parse_u32(&tokens[0])
            } else {
                None
            }
        },
        None => None,
    };
    let old = candidate.duplicate();
    Film {
        title: old.title,
        url: old.url,
        poster_url: match poster {
            Some(p) => Some(p),
            None => old.poster_url,
        },
        cast: match find_last_option(&options, "Cast") {
            Some(c) => Some(string_of(&c)),
            None => old.cast,
        },
        release_date: match find_last_option(&options, "Anno") {
            Some(y) => Some(string_of(&y)),
            None => old.release_date,
        },
        running_time: match minutes {
            Some(m) => Some(m),
            None => old.running_time,
        },
        synopsis: match read_description(page, &options) {
            Some(d) => Some(d),
            None => old.synopsis,
        },
        showtimes: match list_if_some(&read_showtimes(page)) {
            Some(s) => Some(s),
            None => old.showtimes,
        },
    }
}

impl CinemaScraper for CinemaEderaScraper {
    open spec fn listing_request(&self) -> RequestView {
        RequestView::get(self.url@)
    }

    open spec fn planned(&self, body: Seq<char>) -> Seq<FilmView> {
        candidates_of(page_of(body), self.base@)
    }

    open spec fn visits(&self) -> bool {
        true
    }

    open spec fn followed(&self, page: Seq<char>) -> Seq<Seq<char>> {
        Seq::empty()
    }

    open spec fn completed(
        &self,
        candidate: FilmView,
        page: Option<Seq<char>>,
        inner: Seq<Option<Seq<char>>>,
    ) -> Option<FilmView> {
        match page {
            Some(html) => Some(enriched(candidate, page_of(html), self.base@)),
            None => None,
        }
    }

    open spec fn feed_path(&self) -> Seq<char> {
        "docs/feeds/cinema_edera.xml"@
    }

    open spec fn warm_up_request(&self) -> Option<RequestView> {
        None
    }

    fn listing(&self) -> (r: Request) {
        Request::get(self.url.clone())
    }

    fn plan(&self, body: &str) -> (out: Vec<Film>) {
        read_timetable(&load(body), self.base.as_str())
    }

    fn visits_candidates(&self) -> (b: bool) {
        true
    }

    fn follow(&self, page: &str) -> (urls: Vec<String>) {
        let urls: Vec<String> = Vec::new();
        assert(strings_view(urls@) =~= Seq::<Seq<char>>::empty());
        urls
    }

    fn complete(&self, candidate: &Film, page: &Option<String>, inner: &Vec<Option<String>>) -> (r:
        Option<Film>) {
        match page {
            Some(html) => Some(enrich(candidate, &load(html.as_str()), self.base.as_str())),
            None => None,
        }
    }

    fn rss_filename(&self) -> (name: String) {
        "docs/feeds/cinema_edera.xml".to_owned()
    }

    fn warm_up(&self) -> (r: Option<Request>) {
        None
    }

    proof fn lemma_failed_page_gives_nothing(
        &self,
        candidate: FilmView,
        inner: Seq<Option<Seq<char>>>,
    ) {
    }
}

} // verus!
