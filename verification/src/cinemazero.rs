//! Cinemazero, Pordenone.

use crate::crawl::{CinemaScraper, Request, RequestView};
use crate::discover::{bare_candidates, bare_films, sort_unique, sorted_set};
use crate::gather::one_if;
use crate::film::{
    join_if_any, joined_if_any, list_if_any, list_if_some, opt_chars, opt_string, opt_view,
    strings_view, text_if_any, text_if_some, Film, FilmView,
};
use crate::lines::{clean, clean_lines, run, run_together};
use crate::links::{absolute, make_absolute};
use crate::number::{parse_u32, parsed_u32};
use crate::page::{
    attr_of, attrs_in, filled_line, first_match, lines_of, matches_in, scanned, strs_view,
    texts_in, texts_of, NodeView, Page,
};
use crate::text::{
    all_letters, any_digit, byte_len, chars_of, concat, contains, copy, drop_controls,
    ends_with, eq_ignore_ascii_case, has_digit, has_prefix, has_suffix, in_set, is_all_letters,
    len_bytes, lowercase, occurs_in, printable, push_text, same, same_ignoring_case, slice,
    starts_with, string_of, strip, strip_start, stripped, stripped_start, to_lowercase, trim,
    trimmed, views,
};
use crate::tokens::{join, joined, split_whitespace, words};
use vstd::prelude::*;

verus! {

/// The source of Cinemazero's programme.
#[derive(Debug, Clone)]
pub struct CinemazeroScraper {
    pub url: String,
}

impl CinemazeroScraper {
    /// A source for the programme; the address is kept for reference.
    pub fn new(url: String) -> (scraper: Self)
        ensures
            scraper.url@ == url@,
    {
        CinemazeroScraper { url }
    }
}

/// The site's origin.
pub open spec fn origin() -> Seq<char> {
    "https://cinemazero.it"@
}

/// The selectors that the site's pages are asked: links; the film's
/// image; its year; the heading; paragraphs.
pub open spec fn selector_list() -> Seq<Seq<char>> {
    seq![
        "a[href]"@,
        "img[alt*=\"Immagine del film\"]"@,
        "span[aria-label=\"Uscita\"]"@,
        "h1"@,
        "p"@,
    ]
}

/// The attributes that are read: `href` and `src`.
pub open spec fn name_list() -> Seq<Seq<char>> {
    seq!["href"@, "src"@]
}

/// The page that `html` parses to, as this source reads it.
pub open spec fn page_of(html: Seq<char>) -> Seq<NodeView> {
    scanned(html, selector_list(), name_list())
}

/// Parses a page of the site.
pub fn load(html: &str) -> (page: Page)
    ensures
        page@ == page_of(html@),
{
    let selectors = vec![
        "a[href]",
        "img[alt*=\"Immagine del film\"]",
        "span[aria-label=\"Uscita\"]",
        "h1",
        "p",
    ];
    let names = vec!["href", "src"];
    assert(strs_view(selectors@) =~= selector_list());
    assert(strs_view(names@) =~= name_list());
    Page::parse(html, &selectors, &names)
}

/// The addresses of the site's own film pages among the links `hrefs`.
pub open spec fn film_links(hrefs: Seq<Seq<char>>) -> Seq<Seq<char>>
    decreases hrefs.len(),
{
    if hrefs.len() == 0 {
        Seq::empty()
    } else if occurs_in(trimmed(hrefs.last()), "/film/"@) && has_prefix(
        absolute(trimmed(hrefs.last()), origin()),
        "https://cinemazero.it/film/"@,
    ) {
        film_links(hrefs.drop_last()).push(absolute(trimmed(hrefs.last()), origin()))
    } else {
        film_links(hrefs.drop_last())
    }
}

/// The addresses to visit for a programme page: the site's own film
/// pages that it links to, each once, ascending.
pub open spec fn visits_of(nodes: Seq<NodeView>) -> Seq<Seq<char>> {
    sorted_set(film_links(attrs_in(nodes, 0, 0, 0, nodes.len() as int)))
}

/// The addresses to visit for a programme page.
pub fn film_urls(page: &Page) -> (urls: Vec<Vec<char>>)
    ensures
        views(urls@) == visits_of(page@),
{
    let hrefs = page.attr_values(0, 0);
    let film = chars_of("/film/");
    let prefix = chars_of("https://cinemazero.it/film/");
    let mut found: Vec<Vec<char>> = Vec::new();
    let mut i: usize = 0;
    assert(views(found@) =~= film_links(views(hrefs@).take(0)));
    while i < hrefs.len()
        invariant
            i <= hrefs.len(),
            film@ == "/film/"@,
            prefix@ == "https://cinemazero.it/film/"@,
            views(found@) == film_links(views(hrefs@).take(i as int)),
        decreases hrefs.len() - i,
    {
        proof {
            assert(views(hrefs@).take(i + 1).drop_last() == views(hrefs@).take(i as int));
            assert(views(hrefs@).take(i + 1).last() == hrefs@[i as int]@);
        }
        let href = trim(&hrefs[i]);
        let full = make_absolute(&href, "https://cinemazero.it");
        if contains(&href, &film) && starts_with(&full, &prefix) {
            push_text(&mut found, full);
        }
        i += 1;
    }
    proof {
        assert(views(hrefs@).take(hrefs.len() as int) == views(hrefs@));
    }
    sort_unique(&found)
}

/// The line after line `i`, if there is one.
pub open spec fn line_after(lines: Seq<Seq<char>>, i: int) -> Option<Seq<char>> {
    if 0 <= i && i + 1 < lines.len() {
        Some(lines[i + 1])
    } else {
        None
    }
}

/// Where a line stands to a label.
#[derive(Debug, Clone, Copy, PartialEq, Eq, Structural)]
pub enum Place {
    /// The line is the label: its value stands on the line below.
    Alone,
    /// The line starts with the label: its value stands behind it.
    Beside,
    /// The line does not carry the label.
    Apart,
}

/// Where a line stands to `label`, given the line in lower case.
pub open spec fn label_place(low: Seq<char>, label: Seq<char>) -> Place {
    if low == label {
        Place::Alone
    } else if has_prefix(low, label + " "@) {
        Place::Beside
    } else {
        Place::Apart
    }
}

/// Where a line stands to the label `cast`, given the line and the line
/// in lower case: no space need follow this label, but more than four
/// bytes must stand on the line.
pub open spec fn cast_place(line: Seq<char>, low: Seq<char>) -> Place {
    if low == "cast"@ {
        Place::Alone
    } else if has_prefix(low, "cast"@) && byte_len(line) > 4 {
        Place::Beside
    } else {
        Place::Apart
    }
}

/// The value, given it in lower case too: none where it is empty or a
/// label itself, which starts with `stop`.
pub open spec fn value_unless_label(val: Seq<char>, low: Seq<char>, stop: Seq<char>) -> Option<
    Seq<char>,
> {
    if val.len() > 0 && !has_prefix(low, stop) {
        Some(val)
    } else {
        None
    }
}

/// Where a line stands to `label`, given the line in lower case.
pub fn place_of_label(low: &Vec<char>, label: &str) -> (r: Place)
    ensures
        r == label_place(low@, label@),
{
    let name = chars_of(label);
    if same(low, &name) {
        Place::Alone
    } else if starts_with(low, &concat(&name, &chars_of(" "))) {
        Place::Beside
    } else {
        Place::Apart
    }
}

/// Where a line stands to the label `cast`, given the line in lower case.
pub fn place_of_cast(line: &Vec<char>, low: &Vec<char>) -> (r: Place)
    ensures
        r == cast_place(line@, low@),
{
    let name = chars_of("cast");
    if same(low, &name) {
        Place::Alone
    } else if starts_with(low, &name) && len_bytes(line) > 4 {
        Place::Beside
    } else {
        Place::Apart
    }
}

/// The value, unless it is empty or a label, given it in lower case too.
pub fn take_unless_label(val: Vec<char>, low: &Vec<char>, stop: &str) -> (r: Option<Vec<char>>)
    ensures
        opt_chars(r) == value_unless_label(val@, low@, stop@),
{
    if val.len() > 0 && !starts_with(low, &chars_of(stop)) {
        Some(val)
    } else {
        None
    }
}

/// The value on the line after a label, unless it is empty or the next
/// label, which starts with `stop`.
pub open spec fn value_below(lines: Seq<Seq<char>>, i: int, stop: Seq<char>) -> Option<Seq<char>> {
    match line_after(lines, i) {
        Some(next) => value_unless_label(trimmed(next), lowercase(trimmed(next)), stop),
        None => None,
    }
}

/// The value behind a label of `n` characters on the same line, colons
/// and spaces around it aside.
pub open spec fn value_beside(line: Seq<char>, n: int) -> Option<Seq<char>> {
    let rest = if trimmed(line).len() >= n {
        trimmed(line).skip(n)
    } else {
        Seq::empty()
    };
    text_if_any(stripped(rest, seq![':'], true))
}

/// The value of the first line from `i` on that carries the label: the
/// line below where the label stands alone, the rest of the line where
/// a space follows the label.
pub open spec fn labelled(lines: Seq<Seq<char>>, i: int, label: Seq<char>, stop: Seq<char>) -> Option<
    Seq<char>,
>
    decreases lines.len() - i,
{
    if i < 0 || i >= lines.len() {
        None
    } else {
        match label_place(lowercase(trimmed(lines[i])), label) {
            Place::Alone => value_below(lines, i, stop),
            Place::Beside => value_beside(lines[i], label.len() as int),
            Place::Apart => labelled(lines, i + 1, label, stop),
        }
    }
}

/// The cast: below the first line that is `cast`, if more than two bytes
/// stand there; or behind the label on the first line that starts with it.
pub open spec fn cast_from(lines: Seq<Seq<char>>, i: int) -> Option<Seq<char>>
    decreases lines.len() - i,
{
    if i < 0 || i >= lines.len() {
        None
    } else {
        match cast_place(trimmed(lines[i]), lowercase(trimmed(lines[i]))) {
            Place::Alone => match line_after(lines, i) {
                Some(next) => if byte_len(trimmed(next)) > 2 {
                    Some(trimmed(next))
                } else {
                    None
                },
                None => None,
            },
            Place::Beside => {
                let rest = if trimmed(lines[i]).len() >= 4 {
                    trimmed(lines[i]).skip(4)
                } else {
                    Seq::empty()
                };
                text_if_any(stripped_start(rest, seq![':'], true))
            },
            Place::Apart => cast_from(lines, i + 1),
        }
    }
}

fn read_labelled(lines: &Vec<Vec<char>>, label: &str, stop: &str) -> (r: Option<Vec<char>>)
    ensures
        opt_chars(r) == labelled(views(lines@), 0, label@, stop@),
{
    let name = chars_of(label);
    let mut colon: Vec<char> = Vec::new();
    colon.push(':');
    assert(colon@ =~= seq![':']);
    let mut i: usize = 0;
    while i < lines.len()
        invariant
            i <= lines.len(),
            name@ == label@,
            colon@ == seq![':'],
            labelled(views(lines@), i as int, label@, stop@) == labelled(
                views(lines@),
                0,
                label@,
                stop@,
            ),
        decreases lines.len() - i,
    {
        let line = trim(&lines[i]);
        match place_of_label(&to_lowercase(&line), label) {
            Place::Alone => {
                if i + 1 < lines.len() {
                    let val = trim(&lines[i + 1]);
                    let low = to_lowercase(&val);
                    return take_unless_label(val, &low, stop);
                }
                return None;
            },
            Place::Beside => {
                let rest = if line.len() >= name.len() {
                    slice(&line, name.len(), line.len())
                } else {
                    Vec::new()
                };
                let val = strip(&rest, &colon, true);
                if val.len() > 0 {
                    return Some(val);
                }
                return None;
            },
            Place::Apart => {},
        }
        i += 1;
    }
    None
}

fn read_cast(lines: &Vec<Vec<char>>) -> (r: Option<Vec<char>>)
    ensures
        opt_chars(r) == cast_from(views(lines@), 0),
{
    let mut colon: Vec<char> = Vec::new();
    colon.push(':');
    assert(colon@ =~= seq![':']);
    let mut i: usize = 0;
    while i < lines.len()
        invariant
            i <= lines.len(),
            colon@ == seq![':'],
            cast_from(views(lines@), i as int) == cast_from(views(lines@), 0),
        decreases lines.len() - i,
    {
        let line = trim(&lines[i]);
        match place_of_cast(&line, &to_lowercase(&line)) {
            Place::Alone => {
                if i + 1 < lines.len() {
                    let val = trim(&lines[i + 1]);
                    if len_bytes(&val) > 2 {
                        return Some(val);
                    }
                }
                return None;
            },
            Place::Beside => {
                let rest = if line.len() >= 4 {
                    slice(&line, 4, line.len())
                } else {
                    Vec::new()
                };
                let val = strip_start(&rest, &colon, true);
                if val.len() > 0 {
                    return Some(val);
                }
                return None;
            },
            Place::Apart => {},
        }
        i += 1;
    }
    None
}

/// The credits on one line: genre, director and cast, as far as known.
pub open spec fn credits_of(lines: Seq<Seq<char>>) -> Option<Seq<char>> {
    let genre = match labelled(lines, 0, "genere"@, "regia"@) {
        Some(g) => Some("Genere: "@ + g),
        None => None,
    };
    let director = match labelled(lines, 0, "regia"@, "cast"@) {
        Some(r) => Some("Regia: "@ + r),
        None => None,
    };
    let cast = match cast_from(lines, 0) {
        Some(c) => Some("Cast: "@ + c),
        None => None,
    };
    joined_if_any(one_if(genre) + one_if(director) + one_if(cast), " | "@)
}

fn read_credits(lines: &Vec<Vec<char>>) -> (r: Option<String>)
    ensures
        opt_view(r) == credits_of(views(lines@)),
{
    let mut parts: Vec<Vec<char>> = Vec::new();
    assert(views(parts@) =~= Seq::<Seq<char>>::empty());
    let ghost genre = match labelled(views(lines@), 0, "genere"@, "regia"@) {
        Some(g) => Some("Genere: "@ + g),
        None => None,
    };
    let ghost director = match labelled(views(lines@), 0, "regia"@, "cast"@) {
        Some(r) => Some("Regia: "@ + r),
        None => None,
    };
    match read_labelled(lines, "genere", "regia") {
        Some(g) => {
            push_text(&mut parts, concat(&chars_of("Genere: "), &g));
        },
        None => {},
    }
    assert(views(parts@) =~= one_if(genre));
    match read_labelled(lines, "regia", "cast") {
        Some(r) => {
            push_text(&mut parts, concat(&chars_of("Regia: "), &r));
        },
        None => {},
    }
    assert(views(parts@) =~= one_if(genre) + one_if(director));
    let ghost cast = match cast_from(views(lines@), 0) {
        Some(c) => Some("Cast: "@ + c),
        None => None,
    };
    match read_cast(lines) {
        Some(c) => {
            push_text(&mut parts, concat(&chars_of("Cast: "), &c));
        },
        None => {},
    }
    assert(views(parts@) =~= one_if(genre) + one_if(director) + one_if(cast));
    join_if_any(&parts, " | ")
}

/// A line that is a label of the film's data, alone or with its value.
pub open spec fn is_label(s: Seq<char>) -> bool {
    labels_data(lowercase(trimmed(s)))
}

/// A line in lower case that is a label of the film's data, alone or with
/// its value.
pub open spec fn labels_data(l: Seq<char>) -> bool {
    l == "genere"@ || l == "regia"@ || l == "cast"@ || has_prefix(l, "genere "@) || has_prefix(
        l,
        "regia "@,
    ) || has_prefix(l, "cast "@)
}

/// A line in lower case that holds the schedule's heading.
pub open spec fn heads_schedule(l: Seq<char>) -> bool {
    occurs_in(l, "programmazione e orari"@)
}

/// A line in lower case that opens what shows today, behind the schedule.
pub open spec fn heads_today(l: Seq<char>) -> bool {
    has_prefix(l, "oggi al cinema"@)
}

/// Whether a line in lower case is a label of the film's data.
pub fn is_label_of_data(l: &Vec<char>) -> (r: bool)
    ensures
        r == labels_data(l@),
{
    same(l, &chars_of("genere")) || same(l, &chars_of("regia")) || same(l, &chars_of("cast"))
        || starts_with(l, &chars_of("genere ")) || starts_with(l, &chars_of("regia "))
        || starts_with(l, &chars_of("cast "))
}

/// Whether a line in lower case holds the schedule's heading.
pub fn is_schedule_heading(l: &Vec<char>) -> (r: bool)
    ensures
        r == heads_schedule(l@),
{
    contains(l, &chars_of("programmazione e orari"))
}

/// Whether a line in lower case opens what shows today.
pub fn is_today_heading(l: &Vec<char>) -> (r: bool)
    ensures
        r == heads_today(l@),
{
    starts_with(l, &chars_of("oggi al cinema"))
}

/// A line at which the synopsis ends: the schedule's heading or a label.
pub open spec fn ends_plot(s: Seq<char>) -> bool {
    heads_schedule(lowercase(s)) || is_label(s)
}

/// The lines from `i` on, up to the first that ends the synopsis.
pub open spec fn plot_from(lines: Seq<Seq<char>>, i: int) -> Seq<Seq<char>>
    decreases lines.len() - i,
{
    if i < 0 || i >= lines.len() || ends_plot(lines[i]) {
        Seq::empty()
    } else {
        seq![lines[i]] + plot_from(lines, i + 1)
    }
}

/// Index of the first line from `i` on that is the title, letter case
/// aside; 0 where there is none.
pub open spec fn title_index(lines: Seq<Seq<char>>, title: Seq<char>, i: int) -> int
    decreases lines.len() - i,
{
    if i < 0 || i >= lines.len() {
        0
    } else if same_ignoring_case(lines[i], title) {
        i
    } else {
        title_index(lines, title, i + 1)
    }
}

/// The synopsis that the lines give: what stands between the title and
/// the film's data, on one line, without control characters.
pub open spec fn plot_of(lines: Seq<Seq<char>>, title: Seq<char>) -> Option<Seq<char>> {
    let plot = plot_from(lines, title_index(lines, title, 0) + 1);
    if plot.len() == 0 {
        None
    } else {
        Some(printable(joined(plot, " "@)))
    }
}

/// A paragraph that reads like a plot: long, with a full stop, and
/// without a word of the film's data.
pub open spec fn is_plot(t: Seq<char>) -> bool {
    reads_as_plot(t, lowercase(t))
}

/// A paragraph that reads like a plot, given it in lower case too.
pub open spec fn reads_as_plot(t: Seq<char>, l: Seq<char>) -> bool {
    byte_len(t) >= 80 && !occurs_in(l, "genere"@) && !occurs_in(l, "regia"@) && !occurs_in(
        l,
        "cast"@,
    ) && !occurs_in(l, "programmazione e orari"@) && l.contains('.')
}

/// Whether a paragraph reads like a plot, given it in lower case too.
pub fn is_plot_text(t: &Vec<char>, l: &Vec<char>) -> (r: bool)
    ensures
        r == reads_as_plot(t@, l@),
{
    len_bytes(t) >= 80 && !contains(l, &chars_of("genere")) && !contains(l, &chars_of("regia"))
        && !contains(l, &chars_of("cast")) && !contains(l, &chars_of("programmazione e orari"))
        && in_set('.', l)
}

/// The longest paragraph that reads like a plot; of several, the first.
pub open spec fn longest_plot(texts: Seq<Seq<char>>) -> Option<Seq<char>>
    decreases texts.len(),
{
    if texts.len() == 0 {
        None
    } else {
        let best = longest_plot(texts.drop_last());
        let size = match best {
            Some(b) => byte_len(b),
            None => 0,
        };
        if is_plot(texts.last()) && byte_len(texts.last()) > size {
            Some(texts.last())
        } else {
            best
        }
    }
}

/// The synopsis of a film page: that of its lines, or else its longest
/// plot-like paragraph, without control characters.
pub open spec fn synopsis_of(nodes: Seq<NodeView>, lines: Seq<Seq<char>>, title: Seq<char>) -> Option<
    Seq<char>,
> {
    match plot_of(lines, title) {
        Some(p) => Some(p),
        None => match longest_plot(
            lines_of(nodes, matches_in(nodes, 4, 0, nodes.len() as int)),
        ) {
            Some(t) => Some(printable(t)),
            None => None,
        },
    }
}

fn label_line(s: &Vec<char>) -> (r: bool)
    ensures
        r == is_label(s@),
{
    is_label_of_data(&to_lowercase(&trim(s)))
}

fn find_title(lines: &Vec<Vec<char>>, title: &Vec<char>) -> (r: usize)
    ensures
        r == title_index(views(lines@), title@, 0),
        r == 0 || r < lines.len(),
{
    let mut i: usize = 0;
    while i < lines.len()
        invariant
            i <= lines.len(),
            title_index(views(lines@), title@, i as int) == title_index(views(lines@), title@, 0),
        decreases lines.len() - i,
    {
        if eq_ignore_ascii_case(&lines[i], title) {
            return i;
        }
        i += 1;
    }
    0
}

fn collect_plot(lines: &Vec<Vec<char>>, start: usize) -> (plot: Vec<Vec<char>>)
    ensures
        views(plot@) == plot_from(views(lines@), start as int),
{
    let mut plot: Vec<Vec<char>> = Vec::new();
    let mut i: usize = start;
    proof {
        assert(views(plot@) + plot_from(views(lines@), start as int) =~= plot_from(
            views(lines@),
            start as int,
        ));
    }
    while i < lines.len()
        invariant
            start <= i,
            views(plot@) + plot_from(views(lines@), i as int) == plot_from(
                views(lines@),
                start as int,
            ),
        decreases lines.len() - i,
    {
        let line = &lines[i];
        if is_schedule_heading(&to_lowercase(line)) || label_line(line) {
            proof {
                assert(views(plot@) + Seq::<Seq<char>>::empty() =~= views(plot@));
            }
            return plot;
        }
        proof {
            assert(views(plot@) + (seq![line@] + plot_from(views(lines@), i + 1)) =~= views(
                plot@,
            ).push(line@) + plot_from(views(lines@), i + 1));
        }
        push_text(&mut plot, copy(line));
        i += 1;
    }
    proof {
        assert(views(plot@) + Seq::<Seq<char>>::empty() =~= views(plot@));
    }
    plot
}

fn read_plot(lines: &Vec<Vec<char>>, title: &Vec<char>) -> (r: Option<Vec<char>>)
    ensures
        opt_chars(r) == plot_of(views(lines@), title@),
{
    let plot = collect_plot(lines, find_title(lines, title) + 1);
    if plot.len() == 0 {
        None
    } else {
        Some(drop_controls(&join(&plot, &chars_of(" "))))
    }
}

fn plot_like(t: &Vec<char>) -> (r: bool)
    ensures
        r == is_plot(t@),
{
    is_plot_text(t, &to_lowercase(t))
}

fn find_longest_plot(texts: &Vec<Vec<char>>) -> (r: Option<Vec<char>>)
    ensures
        opt_chars(r) == longest_plot(views(texts@)),
{
    let mut best: Option<Vec<char>> = None;
    let mut size: u128 = 0;
    let mut i: usize = 0;
    assert(views(texts@).take(0) =~= Seq::<Seq<char>>::empty());
    while i < texts.len()
        invariant
            i <= texts.len(),
            opt_chars(best) == longest_plot(views(texts@).take(i as int)),
            size == match best {
                Some(b) => byte_len(b@),
                None => 0,
            },
        decreases texts.len() - i,
    {
        proof {
            assert(views(texts@).take(i + 1).drop_last() == views(texts@).take(i as int));
            assert(views(texts@).take(i + 1).last() == texts@[i as int]@);
        }
        let n = len_bytes(&texts[i]);
        if plot_like(&texts[i]) && n > size {
            best = Some(copy(&texts[i]));
            size = n;
        }
        i += 1;
    }
    proof {
        assert(views(texts@).take(texts.len() as int) == views(texts@));
    }
    best
}

fn read_synopsis(page: &Page, lines: &Vec<Vec<char>>, title: &Vec<char>) -> (r: Option<Vec<char>>)
    ensures
        opt_chars(r) == synopsis_of(page@, views(lines@), title@),
{
    match read_plot(lines, title) {
        Some(p) => Some(p),
        None => {
            let paragraphs = page.select(4);
            match find_longest_plot(&page.lines(&paragraphs)) {
                Some(t) => Some(drop_controls(&t)),
                None => None,
            }
        },
    }
}

/// The minutes that a line gives: the number that is its first word,
/// where the line ends in ` m` or ` min`.
pub open spec fn minutes_on(s: Seq<char>) -> Option<u32> {
    minutes_under(s, lowercase(s))
}

/// The minutes that a line gives, given the line in lower case too.
pub open spec fn minutes_under(s: Seq<char>, l: Seq<char>) -> Option<u32> {
    if (has_suffix(l, " m"@) || has_suffix(l, " min"@)) && words(s).len() > 0 {
        parsed_u32(words(s)[0])
    } else {
        None
    }
}

/// The minutes that a line gives, given the line in lower case too.
pub fn read_minutes_under(s: &Vec<char>, l: &Vec<char>) -> (r: Option<u32>)
    ensures
        r == minutes_under(s@, l@),
{
    if ends_with(l, &chars_of(" m")) || ends_with(l, &chars_of(" min")) {
        let tokens = split_whitespace(s);
        if tokens.len() > 0 {
            assert(views(tokens@)[0] == tokens@[0]@);
            parse_u32(&tokens[0])
        } else {
            None
        }
    } else {
        None
    }
}

/// The minutes of the first line from `i` on that gives any.
pub open spec fn minutes_from(lines: Seq<Seq<char>>, i: int) -> Option<u32>
    decreases lines.len() - i,
{
    if i < 0 || i >= lines.len() {
        None
    } else if minutes_on(lines[i]) is Some {
        minutes_on(lines[i])
    } else {
        minutes_from(lines, i + 1)
    }
}

fn read_minutes(lines: &Vec<Vec<char>>) -> (r: Option<u32>)
    ensures
        r == minutes_from(views(lines@), 0),
{
    let mut i: usize = 0;
    while i < lines.len()
        invariant
            i <= lines.len(),
            minutes_from(views(lines@), i as int) == minutes_from(views(lines@), 0),
        decreases lines.len() - i,
    {
        let n = read_minutes_under(&lines[i], &to_lowercase(&lines[i]));
        if n.is_some() {
            return n;
        }
        i += 1;
    }
    None
}

/// While the schedule is read: the date that the next times belong to,
/// and the phrases so far.
pub ghost struct Slots {
    pub date: Option<Seq<char>>,
    pub phrases: Seq<Seq<char>>,
}

/// A short line with a digit and no colon: a date.
pub open spec fn is_date(s: Seq<char>) -> bool {
    byte_len(s) <= 12 && any_digit(s) && !s.contains(':')
}

/// The first word from `i` on that holds a colon.
pub open spec fn time_word(tokens: Seq<Seq<char>>, i: int) -> Option<Seq<char>>
    decreases tokens.len() - i,
{
    if i < 0 || i >= tokens.len() {
        None
    } else if tokens[i].contains(':') {
        Some(tokens[i])
    } else {
        time_word(tokens, i + 1)
    }
}

/// The first word from `i` on that names a hall: up to four letters.
pub open spec fn hall_word(tokens: Seq<Seq<char>>, i: int) -> Option<Seq<char>>
    decreases tokens.len() - i,
{
    if i < 0 || i >= tokens.len() {
        None
    } else if all_letters(tokens[i]) && tokens[i].len() <= 4 {
        Some(tokens[i])
    } else {
        hall_word(tokens, i + 1)
    }
}

/// The phrase of a line under a date: date, hall if any, and time. A
/// line without a time gives none, nor does a line of prose that only
/// looks like one.
pub open spec fn entry_of(date: Seq<char>, line: Seq<char>) -> Option<Seq<char>> {
    match time_word(words(line), 0) {
        Some(time) => {
            let entry = match hall_word(words(line), 0) {
                Some(hall) => date + " "@ + hall + " "@ + time,
                None => date + " "@ + time,
            };
            real_entry(entry, lowercase(entry))
        },
        None => None,
    }
}

/// The phrase, given it in lower case too: none where it is a line of
/// prose that only looks like a showtime.
pub open spec fn real_entry(entry: Seq<char>, l: Seq<char>) -> Option<Seq<char>> {
    if occurs_in(l, "secolare"@) {
        None
    } else {
        Some(entry)
    }
}

/// The phrase, unless it is prose, given it in lower case too.
pub fn take_real_entry(entry: Vec<char>, l: &Vec<char>) -> (r: Option<Vec<char>>)
    ensures
        opt_chars(r) == real_entry(entry@, l@),
{
    if contains(l, &chars_of("secolare")) {
        None
    } else {
        Some(entry)
    }
}

/// The state after one more line: a date takes the place of the one before; a line
/// with a time under a date gives a phrase.
pub open spec fn slot_step(st: Slots, line: Seq<char>) -> Slots {
    if is_date(line) {
        Slots { date: Some(line), ..st }
    } else {
        match st.date {
            Some(d) => match entry_of(d, line) {
                Some(e) => Slots { phrases: st.phrases.push(e), ..st },
                None => st,
            },
            None => st,
        }
    }
}

/// The state after the lines from `i` on, up to the line that starts
/// with `oggi al cinema`.
pub open spec fn slots_from(lines: Seq<Seq<char>>, i: int, st: Slots) -> Slots
    decreases lines.len() - i,
{
    if i < 0 || i >= lines.len() || heads_today(lowercase(lines[i])) {
        st
    } else {
        slots_from(lines, i + 1, slot_step(st, lines[i]))
    }
}

/// Index just behind the schedule's heading, looked for from `i` on.
pub open spec fn schedule_start(lines: Seq<Seq<char>>, i: int) -> Option<int>
    decreases lines.len() - i,
{
    if i < 0 || i >= lines.len() {
        None
    } else if heads_schedule(lowercase(lines[i])) {
        Some(i + 1)
    } else {
        schedule_start(lines, i + 1)
    }
}

/// The showtimes that the schedule of a page gives.
pub open spec fn showtimes_of(lines: Seq<Seq<char>>) -> Seq<Seq<char>> {
    match schedule_start(lines, 0) {
        Some(k) => slots_from(lines, k, Slots { date: None, phrases: Seq::empty() }).phrases,
        None => Seq::empty(),
    }
}

fn find_time(tokens: &Vec<Vec<char>>) -> (r: Option<usize>)
    ensures
        match r {
            Some(k) => k < tokens.len() && time_word(views(tokens@), 0) == Some(tokens@[k as int]@),
            None => time_word(views(tokens@), 0) is None,
        },
{
    let mut i: usize = 0;
    while i < tokens.len()
        invariant
            i <= tokens.len(),
            time_word(views(tokens@), i as int) == time_word(views(tokens@), 0),
        decreases tokens.len() - i,
    {
        if in_set(':', &tokens[i]) {
            return Some(i);
        }
        i += 1;
    }
    None
}

fn find_hall(tokens: &Vec<Vec<char>>) -> (r: Option<usize>)
    ensures
        match r {
            Some(k) => k < tokens.len() && hall_word(views(tokens@), 0) == Some(tokens@[k as int]@),
            None => hall_word(views(tokens@), 0) is None,
        },
{
    let mut i: usize = 0;
    while i < tokens.len()
        invariant
            i <= tokens.len(),
            hall_word(views(tokens@), i as int) == hall_word(views(tokens@), 0),
        decreases tokens.len() - i,
    {
        if is_all_letters(&tokens[i]) && tokens[i].len() <= 4 {
            return Some(i);
        }
        i += 1;
    }
    None
}

fn read_entry(date: &Vec<char>, line: &Vec<char>) -> (r: Option<Vec<char>>)
    ensures
        opt_chars(r) == entry_of(date@, line@),
{
    let tokens = split_whitespace(line);
    let space = chars_of(" ");
    match find_time(&tokens) {
        Some(t) => {
            let head = match find_hall(&tokens) {
                Some(h) => concat(&concat(date, &space), &tokens[h]),
                None => copy(date),
            };
            let entry = concat(&concat(&head, &space), &tokens[t]);
            let low = to_lowercase(&entry);
            take_real_entry(entry, &low)
        },
        None => None,
    }
}

fn find_schedule(lines: &Vec<Vec<char>>) -> (r: Option<usize>)
    ensures
        match r {
            Some(k) => schedule_start(views(lines@), 0) == Some(k as int),
            None => schedule_start(views(lines@), 0) is None,
        },
{
    let mut k: usize = 0;
    while k < lines.len()
        invariant
            k <= lines.len(),
            schedule_start(views(lines@), k as int) == schedule_start(views(lines@), 0),
        decreases lines.len() - k,
    {
        if is_schedule_heading(&to_lowercase(&lines[k])) {
            return Some(k + 1);
        }
        k += 1;
    }
    None
}

fn read_slots(lines: &Vec<Vec<char>>, start: usize) -> (phrases: Vec<Vec<char>>)
    ensures
        views(phrases@) == slots_from(
            views(lines@),
            start as int,
            Slots { date: None, phrases: Seq::empty() },
        ).phrases,
{
    let mut phrases: Vec<Vec<char>> = Vec::new();
    assert(views(phrases@) =~= Seq::<Seq<char>>::empty());
    let mut date: Option<Vec<char>> = None;
    let mut i: usize = start;
    while i < lines.len()
        invariant
            start <= i,
            slots_from(
                views(lines@),
                i as int,
                Slots { date: opt_chars(date), phrases: views(phrases@) },
            ) == slots_from(
                views(lines@),
                start as int,
                Slots { date: None, phrases: Seq::empty() },
            ),
        decreases lines.len() - i,
    {
        let line = &lines[i];
        if is_today_heading(&to_lowercase(line)) {
            return phrases;
        }
        if len_bytes(line) <= 12 && has_digit(line) && !in_set(':', line) {
            date = Some(copy(line));
        } else {
            let entry = match &date {
                Some(d) => read_entry(d, line),
                None => None,
            };
            match entry {
                Some(e) => {
                    push_text(&mut phrases, e);
                },
                None => {},
            }
        }
        i += 1;
    }
    phrases
}

fn read_showtimes(lines: &Vec<Vec<char>>) -> (phrases: Vec<Vec<char>>)
    ensures
        views(phrases@) == showtimes_of(views(lines@)),
{
    match find_schedule(lines) {
        Some(start) => read_slots(lines, start),
        None => {
            let none: Vec<Vec<char>> = Vec::new();
            assert(views(none@) =~= Seq::<Seq<char>>::empty());
            none
        },
    }
}

/// The first clean line of the film's image address, made absolute.
pub open spec fn poster_of(nodes: Seq<NodeView>) -> Option<Seq<char>> {
    match first_match(nodes, 1, 0, nodes.len() as int) {
        Some(j) => match attr_of(nodes, j, 1) {
            Some(src) => if trimmed(src).len() > 0 {
                Some(absolute(trimmed(src), origin()))
            } else {
                None
            },
            None => None,
        },
        None => None,
    }
}

/// The year of release: the text of the element that is labelled so.
pub open spec fn release_of(nodes: Seq<NodeView>) -> Option<Seq<char>> {
    match first_match(nodes, 2, 0, nodes.len() as int) {
        Some(j) => text_if_any(run_together(clean_lines(texts_of(nodes, j)))),
        None => None,
    }
}

/// The title of a film page: its heading, where it has one with text in it.
pub open spec fn title_of(nodes: Seq<NodeView>) -> Option<Seq<char>> {
    filled_line(nodes, 3, 0, nodes.len() as int)
}

/// What a film page says of the film whose title is `title`.
pub open spec fn titled_film(title: Seq<char>, url: Seq<char>, nodes: Seq<NodeView>) -> FilmView {
    let lines = clean_lines(texts_in(nodes, 0, nodes.len() as int));
    FilmView {
        title,
        url,
        poster_url: poster_of(nodes),
        cast: credits_of(lines),
        release_date: release_of(nodes),
        running_time: minutes_from(lines, 0),
        synopsis: synopsis_of(nodes, lines, title),
        showtimes: list_if_any(showtimes_of(lines)),
    }
}

/// The record that a film page gives; none where the page has no title.
pub open spec fn film_of(url: Seq<char>, nodes: Seq<NodeView>) -> Option<FilmView> {
    match title_of(nodes) {
        Some(title) => Some(titled_film(title, url, nodes)),
        None => None,
    }
}

/// Reads a film page.
pub fn film_from_page(url: &str, page: &Page) -> (r: Option<Film>)
    ensures
        match r {
            Some(f) => film_of(url@, page@) == Some(f@),
            None => film_of(url@, page@) is None,
        },
{
    let title = match page.filled_line_in_range(3, 0, page.len()) {
        Some(t) => t,
        None => {
            return None;
        },
    };
    let lines = clean(&page.all_texts());
    let poster_url = match page.first(1) {
        Some(j) => match page.attr(j, 1) {
            Some(src) => {
                let s = trim(&src);
                if s.len() > 0 {
                    Some(string_of(&make_absolute(&s, "https://cinemazero.it")))
                } else {
                    None
                }
            },
            None => None,
        },
        None => None,
    };
    let release_date = match page.first(2) {
        Some(j) => text_if_some(&run(&clean(&page.texts(j)))),
        None => None,
    };
    Some(
        Film {
            title: string_of(&title),
            url: url.to_owned(),
            poster_url,
            cast: read_credits(&lines),
            release_date,
            running_time: read_minutes(&lines),
            synopsis: opt_string(&read_synopsis(page, &lines, &title)),
            showtimes: list_if_some(&read_showtimes(&lines)),
        },
    )
}

impl CinemaScraper for CinemazeroScraper {
    open spec fn listing_request(&self) -> RequestView {
        RequestView::get("https://cinemazero.it/programmazione/"@)
    }

    open spec fn planned(&self, body: Seq<char>) -> Seq<FilmView> {
        bare_films(visits_of(page_of(body)))
    }

    open spec fn visits(&self) -> bool {
        true
    }

    open spec fn followed(&self, page: Seq<char>) -> Seq<Seq<char>> {
        Seq::empty()
    }

    open spec fn completed(
        &self,
        candidate: FilmView,
        page: Option<Seq<char>>,
        inner: Seq<Option<Seq<char>>>,
    ) -> Option<FilmView> {
        match page {
            Some(html) => film_of(candidate.url, page_of(html)),
            None => None,
        }
    }

    open spec fn feed_path(&self) -> Seq<char> {
        "docs/feeds/cinemazero.xml"@
    }

    open spec fn warm_up_request(&self) -> Option<RequestView> {
        None
    }

    fn listing(&self) -> (r: Request) {
        Request::get("https://cinemazero.it/programmazione/".to_owned())
    }

    fn plan(&self, body: &str) -> (out: Vec<Film>) {
        bare_candidates(&film_urls(&load(body)))
    }

    fn visits_candidates(&self) -> (b: bool) {
        true
    }

    fn follow(&self, page: &str) -> (urls: Vec<String>) {
        let urls: Vec<String> = Vec::new();
        assert(strings_view(urls@) =~= Seq::<Seq<char>>::empty());
        urls
    }

    fn complete(&self, candidate: &Film, page: &Option<String>, inner: &Vec<Option<String>>) -> (r:
        Option<Film>) {
        match page {
            Some(html) => film_from_page(candidate.url.as_str(), &load(html.as_str())),
            None => None,
        }
    }

    fn rss_filename(&self) -> (name: String) {
        "docs/feeds/cinemazero.xml".to_owned()
    }

    fn warm_up(&self) -> (r: Option<Request>) {
        None
    }

    proof fn lemma_failed_page_gives_nothing(
        &self,
        candidate: FilmView,
        inner: Seq<Option<Seq<char>>>,
    ) {
    }
}

} // verus!
