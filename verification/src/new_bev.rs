//! The New Beverly Cinema, Los Angeles: a schedule with one card per
//! screening, and one page per programme.

use crate::crawl::{CinemaScraper, Request, RequestView};
use crate::discover::{arrange, arranged};
use crate::film::{films_view, join_if_any, joined_if_any, opt_chars, strings_view, Film, FilmView};
use crate::links::{absolute, make_absolute};
use crate::merge::{first_of, merge_films, merged};
use crate::number::{keep_digits, only_digits, parse_u32, parsed_u32};
use crate::page::{
    attr_of, first_line, first_match, first_run, lines_of, matches_in, runs_of, scanned,
    strs_view, subtree_end, NodeView, Page,
};
use crate::text::{
    byte_len, chars_of, concat, contains, copy, eq_ignore_ascii_case, len_bytes, occurs_in,
    push_text, same_ignoring_case, string_of, strip_end, stripped_end, trim, trimmed, views,
};
use crate::tokens::{join, joined, replace, replaced};
use vstd::prelude::*;

verus! {

/// The source of the New Beverly's schedule.
#[derive(Debug, Clone)]
pub struct NewBevScraper {
    pub schedule_url: String,
}

impl NewBevScraper {
    /// The source; its listing is the cinema's schedule.
    pub fn new() -> (scraper: Self)
        ensures
            scraper.schedule_url@ == "https://thenewbev.com/schedule/"@,
    {
        NewBevScraper { schedule_url: "https://thenewbev.com/schedule/".to_owned() }
    }
}

/// The site's origin.
pub open spec fn origin() -> Seq<char> {
    "https://thenewbev.com"@
}

/// The selectors that the site's pages are asked: on the schedule the
/// cards, their programme link, title, times, day, month and number, and
/// image; on a programme page the image that it declares, its poster, the
/// terms and values of its data, and the places where its text may stand.
pub open spec fn selector_list() -> Seq<Seq<char>> {
    seq![
        "article.event-card"@,
        "a[href*='/program/']"@,
        "h4.event-card__title"@,
        "time.event-card__time"@,
        "span.event-card__day"@,
        "span.event-card__month"@,
        "span.event-card__numb"@,
        "figure.event-card__img img"@,
        "meta[property=\"og:image\"]"@,
        ".movie__poster img, .movie-mast__poster-img img"@,
        "dl dt"@,
        "dl dd"@,
        ".movie__content p"@,
        "section.movies .movie__content p"@,
        ".entry-content p"@,
        ".post-content p"@,
    ]
}

/// The attributes that are read: `href`, `src` and `content`.
pub open spec fn name_list() -> Seq<Seq<char>> {
    seq!["href"@, "src"@, "content"@]
}

/// The page that `html` parses to, as this source reads it.
pub open spec fn page_of(html: Seq<char>) -> Seq<NodeView> {
    scanned(html, selector_list(), name_list())
}

/// Parses a page of the site.
pub fn load(html: &str) -> (page: Page)
    ensures
        page@ == page_of(html@),
{
    let selectors = vec![
        "article.event-card",
        "a[href*='/program/']",
        "h4.event-card__title",
        "time.event-card__time",
        "span.event-card__day",
        "span.event-card__month",
        "span.event-card__numb",
        "figure.event-card__img img",
        "meta[property=\"og:image\"]",
        ".movie__poster img, .movie-mast__poster-img img",
        "dl dt",
        "dl dd",
        ".movie__content p",
        "section.movies .movie__content p",
        ".entry-content p",
        ".post-content p",
    ];
    let names = vec!["href", "src", "content"];
    assert(strs_view(selectors@) =~= selector_list());
    assert(strs_view(names@) =~= name_list());
    Page::parse(html, &selectors, &names)
}

/// The text, or the empty text where there is none.
pub open spec fn or_empty(o: Option<Seq<char>>) -> Seq<char> {
    match o {
        Some(t) => t,
        None => Seq::empty(),
    }
}

/// The address of the programme that a card links to, without slashes
/// at its end; none where the link is no programme of the site.
pub open spec fn card_address(nodes: Seq<NodeView>, link: int) -> Option<Seq<char>> {
    let href = trimmed(or_empty(attr_of(nodes, link, 0)));
    let url = stripped_end(absolute(href, origin()), seq!['/'], false);
    if href.len() > 0 && occurs_in(href, "/program/"@) && occurs_in(url, "thenewbev.com"@)
        && occurs_in(url, "/program/"@) {
        Some(url)
    } else {
        None
    }
}

/// The title of a card, single spaces for double ones.
pub open spec fn card_title(nodes: Seq<NodeView>, link: int) -> Seq<char> {
    match first_line(nodes, 2, link + 1, subtree_end(nodes, link)) {
        Some(t) => trimmed(replaced(t, "  "@, " "@)),
        None => Seq::empty(),
    }
}

/// The showtime phrase of a card: day, month and number, and the times
/// behind a dash where it has any.
pub open spec fn card_showtime(nodes: Seq<NodeView>, link: int) -> Seq<char> {
    let end = subtree_end(nodes, link);
    let day = replaced(or_empty(first_run(nodes, 4, link + 1, end)), ","@, ""@);
    let month = or_empty(first_run(nodes, 5, link + 1, end));
    let number = or_empty(first_run(nodes, 6, link + 1, end));
    let times = runs_of(nodes, matches_in(nodes, 3, link + 1, end));
    let date = day + " "@ + month + " "@ + number;
    if times.len() == 0 {
        trimmed(date)
    } else {
        trimmed(date + " - "@ + joined(times, " / "@))
    }
}

/// The poster of a card.
pub open spec fn card_poster(nodes: Seq<NodeView>, link: int) -> Option<Seq<char>> {
    match first_match(nodes, 7, link + 1, subtree_end(nodes, link)) {
        Some(j) => match attr_of(nodes, j, 1) {
            Some(src) => Some(absolute(trimmed(src), origin())),
            None => None,
        },
        None => None,
    }
}

/// The screening that a card announces; none where the card does not
/// link to a programme or has no title.
pub open spec fn card_entry(nodes: Seq<NodeView>, card: int) -> Option<FilmView> {
    match first_match(nodes, 1, card + 1, subtree_end(nodes, card)) {
        Some(link) => match card_address(nodes, link) {
            Some(url) => if card_title(nodes, link).len() > 0 {
                Some(
                    FilmView {
                        title: card_title(nodes, link),
                        url,
                        poster_url: card_poster(nodes, link),
                        cast: None,
                        release_date: None,
                        running_time: None,
                        synopsis: None,
                        showtimes: Some(seq![card_showtime(nodes, link)]),
                    },
                )
            } else {
                None
            },
            None => None,
        },
        None => None,
    }
}

/// The screenings of the cards `cards`, in order.
pub open spec fn card_entries(nodes: Seq<NodeView>, cards: Seq<int>) -> Seq<FilmView>
    decreases cards.len(),
{
    if cards.len() == 0 {
        Seq::empty()
    } else {
        match card_entry(nodes, cards.last()) {
            Some(f) => card_entries(nodes, cards.drop_last()).push(f),
            None => card_entries(nodes, cards.drop_last()),
        }
    }
}

/// The screenings of a schedule, card by card.
pub open spec fn schedule_of(nodes: Seq<NodeView>) -> Seq<FilmView> {
    card_entries(nodes, matches_in(nodes, 0, 0, nodes.len() as int))
}

/// The programmes of a schedule: its screenings merged by address, so
/// that each programme has the showtimes of all its screenings, in
/// ascending order of the addresses.
pub open spec fn programmes_of(nodes: Seq<NodeView>) -> Seq<FilmView> {
    arranged(merged(schedule_of(nodes)))
}

fn text_or(o: Option<Vec<char>>) -> (out: Vec<char>)
    ensures
        out@ == or_empty(opt_chars(o)),
{
    match o {
        Some(t) => t,
        None => Vec::new(),
    }
}

fn read_address(page: &Page, link: usize) -> (r: Option<Vec<char>>)
    ensures
        opt_chars(r) == card_address(page@, link as int),
{
    let href = trim(&text_or(page.attr(link, 0)));
    let mut slash: Vec<char> = Vec::new();
    slash.push('/');
    assert(slash@ =~= seq!['/']);
    let url = strip_end(&make_absolute(&href, "https://thenewbev.com"), &slash, false);
    let program = chars_of("/program/");
    if href.len() > 0 && contains(&href, &program) && contains(&url, &chars_of("thenewbev.com"))
        && contains(&url, &program) {
        Some(url)
    } else {
        None
    }
}

fn read_showtime(page: &Page, link: usize) -> (out: Vec<char>)
    requires
        link < page@.len(),
    ensures
        out@ == card_showtime(page@, link as int),
{
    let end = page.end_of(link);
    let day = replace(
        &text_or(page.first_run_in_range(4, link + 1, end)),
        &chars_of(","),
        &chars_of(""),
    );
    let month = text_or(page.first_run_in_range(5, link + 1, end));
    let number = text_or(page.first_run_in_range(6, link + 1, end));
    let found = page.select_range(3, link + 1, end);
    let times = page.runs(&found);
    let space = chars_of(" ");
    let date = concat(&concat(&concat(&concat(&day, &space), &month), &space), &number);
    if times.len() == 0 {
        trim(&date)
    } else {
        trim(&concat(&concat(&date, &chars_of(" - ")), &join(&times, &chars_of(" / "))))
    }
}

fn read_card(page: &Page, card: usize) -> (r: Option<Film>)
    requires
        card < page@.len(),
    ensures
        match r {
            Some(f) => card_entry(page@, card as int) == Some(f@),
            None => card_entry(page@, card as int) is None,
        },
{
    let link = match page.first_in(card, 1) {
        Some(l) => l,
        None => {
            return None;
        },
    };
    let url = match read_address(page, link) {
        Some(u) => u,
        None => {
            return None;
        },
    };
    let end = page.end_of(link);
    let title = match page.first_line_in_range(2, link + 1, end) {
        Some(t) => trim(&replace(&t, &chars_of("  "), &chars_of(" "))),
        None => Vec::new(),
    };
    if title.len() == 0 {
        return None;
    }
    let poster = match page.first_in_range(7, link + 1, end) {
        Some(j) => match page.attr(j, 1) {
            Some(src) => Some(string_of(&make_absolute(&trim(&src), "https://thenewbev.com"))),
            None => None,
        },
        None => None,
    };
    let mut times: Vec<String> = Vec::new();
    let phrase = read_showtime(page, link);
    times.push(string_of(&phrase));
    assert(strings_view(times@) =~= seq![phrase@]);
    Some(
        Film {
            title: string_of(&title),
            url: string_of(&url),
            poster_url: poster,
            cast: None,
            release_date: None,
            running_time: None,
            synopsis: None,
            showtimes: Some(times),
        },
    )
}

/// The screenings of a schedule, card by card.
pub fn parse_schedule(page: &Page) -> (out: Vec<Film>)
    ensures
        films_view(out@) == schedule_of(page@),
{
    let cards = page.select(0);
    let ghost all = cards@.map_values(|j: usize| j as int);
    let mut out: Vec<Film> = Vec::new();
    let mut k: usize = 0;
    assert(films_view(out@) =~= card_entries(page@, all.take(0)));
    while k < cards.len()
        invariant
            k <= cards.len(),
            all == cards@.map_values(|j: usize| j as int),
            forall|k: int| 0 <= k < cards@.len() ==> #[trigger] cards@[k] < page@.len(),
            films_view(out@) == card_entries(page@, all.take(k as int)),
        decreases cards.len() - k,
    {
        proof {
            assert(all.take(k + 1).drop_last() == all.take(k as int));
            assert(all.take(k + 1).last() == cards@[k as int] as int);
        }
        match read_card(page, cards[k]) {
            Some(f) => {
                let ghost before = films_view(out@);
                out.push(f);
                assert(films_view(out@) =~= before.push(f@));
            },
            None => {},
        }
        k += 1;
    }
    proof {
        assert(all.take(cards.len() as int) == all);
    }
    out
}

/// The poster of a programme page: the image that it declares, or else
/// its poster image.
pub open spec fn page_poster(nodes: Seq<NodeView>) -> Option<Seq<char>> {
    let n = nodes.len() as int;
    let declared = match first_match(nodes, 8, 0, n) {
        Some(j) => match attr_of(nodes, j, 2) {
            Some(c) => if trimmed(c).len() > 0 {
                Some(trimmed(c))
            } else {
                None
            },
            None => None,
        },
        None => None,
    };
    first_of(
        declared,
        match first_match(nodes, 9, 0, n) {
            Some(j) => match attr_of(nodes, j, 1) {
                Some(src) => Some(absolute(trimmed(src), origin())),
                None => None,
            },
            None => None,
        },
    )
}

/// The value that stands with term number `i`; empty where there is none.
pub open spec fn value_at(values: Seq<Seq<char>>, i: int) -> Seq<char> {
    if 0 <= i < values.len() {
        values[i]
    } else {
        Seq::empty()
    }
}

/// A term of the film's credits.
pub open spec fn is_credit(term: Seq<char>) -> bool {
    same_ignoring_case(term, "Director"@) || same_ignoring_case(term, "Writer"@)
        || same_ignoring_case(term, "Starring"@) || same_ignoring_case(term, "Year"@)
        || same_ignoring_case(term, "Country"@) || same_ignoring_case(term, "Format"@)
}

/// The running time among the first `n` terms: the number that the
/// digits of the value of the last running-time term write.
pub open spec fn data_minutes(terms: Seq<Seq<char>>, values: Seq<Seq<char>>, n: int) -> Option<u32>
    decreases n,
{
    if n <= 0 || n > terms.len() {
        None
    } else if same_ignoring_case(terms[n - 1], "Running Time"@) && parsed_u32(
        only_digits(value_at(values, n - 1)),
    ) is Some {
        parsed_u32(only_digits(value_at(values, n - 1)))
    } else {
        data_minutes(terms, values, n - 1)
    }
}

/// The credits among the first `n` terms, each as term and value.
pub open spec fn data_credits(terms: Seq<Seq<char>>, values: Seq<Seq<char>>, n: int) -> Seq<
    Seq<char>,
>
    decreases n,
{
    if n <= 0 || n > terms.len() {
        Seq::empty()
    } else if !same_ignoring_case(terms[n - 1], "Running Time"@) && value_at(values, n - 1).len()
        > 0 && is_credit(terms[n - 1]) {
        data_credits(terms, values, n - 1).push(terms[n - 1] + ": "@ + value_at(values, n - 1))
    } else {
        data_credits(terms, values, n - 1)
    }
}

/// A paragraph of a programme's text: long, and neither a prompt to buy
/// tickets nor a short pointer to the blog.
pub open spec fn is_prose(t: Seq<char>) -> bool {
    byte_len(t) >= 50 && !same_ignoring_case(t, "Buy Tickets"@) && !same_ignoring_case(
        t,
        "View Trailer"@,
    ) && !occurs_in(t, "ticketing."@) && !occurs_in(t, "veezi.com"@) && !(occurs_in(
        t,
        "New Beverly blog"@,
    ) && byte_len(t) < 150)
}

/// The paragraphs of prose from `i` on, `room` of them at most.
pub open spec fn prose_from(texts: Seq<Seq<char>>, i: int, room: nat) -> Seq<Seq<char>>
    decreases texts.len() - i,
{
    if i < 0 || i >= texts.len() || room == 0 {
        Seq::empty()
    } else if is_prose(trimmed(texts[i])) {
        seq![trimmed(texts[i])] + prose_from(texts, i + 1, (room - 1) as nat)
    } else {
        prose_from(texts, i + 1, room)
    }
}

/// The prose of the first of the selectors from `sel` up to `end` that
/// has any: eight paragraphs at most.
pub open spec fn first_prose(nodes: Seq<NodeView>, sel: int, end: int) -> Seq<Seq<char>>
    decreases end - sel,
{
    if sel >= end {
        Seq::empty()
    } else if prose_from(
        lines_of(nodes, matches_in(nodes, sel, 0, nodes.len() as int)),
        0,
        8,
    ).len() > 0 {
        prose_from(lines_of(nodes, matches_in(nodes, sel, 0, nodes.len() as int)), 0, 8)
    } else {
        first_prose(nodes, sel + 1, end)
    }
}

/// The programme with what its page adds: poster, credits, running time
/// and text. Title, address and showtimes are the schedule's.
pub open spec fn completed_of(candidate: FilmView, nodes: Seq<NodeView>) -> FilmView {
    let n = nodes.len() as int;
    let terms = runs_of(nodes, matches_in(nodes, 10, 0, n));
    let values = runs_of(nodes, matches_in(nodes, 11, 0, n));
    FilmView {
        title: candidate.title,
        url: candidate.url,
        poster_url: first_of(page_poster(nodes), candidate.poster_url),
        cast: joined_if_any(data_credits(terms, values, terms.len() as int), " | "@),
        release_date: None,
        running_time: data_minutes(terms, values, terms.len() as int),
        synopsis: joined_if_any(first_prose(nodes, 12, 16), "\n\n"@),
        showtimes: candidate.showtimes,
    }
}

fn read_page_poster(page: &Page) -> (r: Option<Vec<char>>)
    ensures
        opt_chars(r) == page_poster(page@),
{
    let declared = match page.first(8) {
        Some(j) => match page.attr(j, 2) {
            Some(c) => {
                let t = trim(&c);
                if t.len() > 0 {
                    Some(t)
                } else {
                    None
                }
            },
            None => None,
        },
        None => None,
    };
    match declared {
        Some(d) => Some(d),
        None => match page.first(9) {
            Some(j) => match page.attr(j, 1) {
                Some(src) => Some(make_absolute(&trim(&src), "https://thenewbev.com")),
                None => None,
            },
            None => None,
        },
    }
}

fn credit_term(term: &Vec<char>) -> (r: bool)
    ensures
        r == is_credit(term@),
{
    eq_ignore_ascii_case(term, &chars_of("Director")) || eq_ignore_ascii_case(
        term,
        &chars_of("Writer"),
    ) || eq_ignore_ascii_case(term, &chars_of("Starring")) || eq_ignore_ascii_case(
        term,
        &chars_of("Year"),
    ) || eq_ignore_ascii_case(term, &chars_of("Country")) || eq_ignore_ascii_case(
        term,
        &chars_of("Format"),
    )
}

fn read_data(terms: &Vec<Vec<char>>, values: &Vec<Vec<char>>) -> (r: (Option<u32>, Vec<Vec<char>>))
    ensures
        r.0 == data_minutes(views(terms@), views(values@), terms@.len() as int),
        views(r.1@) == data_credits(views(terms@), views(values@), terms@.len() as int),
{
    let running = chars_of("Running Time");
    let colon = chars_of(": ");
    let mut minutes: Option<u32> = None;
    let mut credits: Vec<Vec<char>> = Vec::new();
    assert(views(credits@) =~= Seq::<Seq<char>>::empty());
    let mut i: usize = 0;
    while i < terms.len()
        invariant
            i <= terms.len(),
            running@ == "Running Time"@,
            colon@ == ": "@,
            minutes == data_minutes(views(terms@), views(values@), i as int),
            views(credits@) == data_credits(views(terms@), views(values@), i as int),
        decreases terms.len() - i,
    {
        let value = if i < values.len() {
            copy(&values[i])
        } else {
            Vec::new()
        };
        assert(value@ == value_at(views(values@), i as int));
        let term = &terms[i];
        if eq_ignore_ascii_case(term, &running) {
            let n = parse_u32(&keep_digits(&value));
            if n.is_some() {
                minutes = n;
            }
        } else if value.len() > 0 && credit_term(term) {
            push_text(&mut credits, concat(&concat(term, &colon), &value));
        }
        i += 1;
    }
    (minutes, credits)
}

fn prose_like(t: &Vec<char>) -> (r: bool)
    ensures
        r == is_prose(t@),
{
    let n = len_bytes(t);
    n >= 50 && !eq_ignore_ascii_case(t, &chars_of("Buy Tickets")) && !eq_ignore_ascii_case(
        t,
        &chars_of("View Trailer"),
    ) && !contains(t, &chars_of("ticketing.")) && !contains(t, &chars_of("veezi.com")) && !(
    contains(t, &chars_of("New Beverly blog")) && n < 150)
}

fn read_prose(texts: &Vec<Vec<char>>) -> (out: Vec<Vec<char>>)
    ensures
        views(out@) == prose_from(views(texts@), 0, 8),
{
    let mut out: Vec<Vec<char>> = Vec::new();
    let mut room: usize = 8;
    let mut i: usize = 0;
    proof {
        assert(views(out@) + prose_from(views(texts@), 0, 8) =~= prose_from(views(texts@), 0, 8));
    }
    while i < texts.len() && room > 0
        invariant
            i <= texts.len(),
            views(out@) + prose_from(views(texts@), i as int, room as nat) == prose_from(
                views(texts@),
                0,
                8,
            ),
        decreases texts.len() - i,
    {
        let t = trim(&texts[i]);
        if prose_like(&t) {
            proof {
                let rest = prose_from(views(texts@), i + 1, (room - 1) as nat);
                assert(views(out@) + (seq![t@] + rest) =~= views(out@).push(t@) + rest);
            }
            push_text(&mut out, t);
            room -= 1;
        }
        i += 1;
    }
    proof {
        assert(views(out@) + Seq::<Seq<char>>::empty() =~= views(out@));
    }
    out
}

fn read_first_prose(page: &Page) -> (out: Vec<Vec<char>>)
    ensures
        views(out@) == first_prose(page@, 12, 16),
{
    let mut sel: usize = 12;
    while sel < 16
        invariant
            12 <= sel <= 16,
            first_prose(page@, sel as int, 16) == first_prose(page@, 12, 16),
        decreases 16 - sel,
    {
        let found = page.select(sel);
        let prose = read_prose(&page.lines(&found));
        if prose.len() > 0 {
            return prose;
        }
        sel += 1;
    }
    let none: Vec<Vec<char>> = Vec::new();
    assert(views(none@) =~= Seq::<Seq<char>>::empty());
    none
}

/// The programme with what its page adds.
pub fn parse_program_page(candidate: &Film, page: &Page) -> (film: Film)
    ensures
        film@ == completed_of(candidate@, page@),
{
    let found_terms = page.select(10);
    let found_values = page.select(11);
    let terms = page.runs(&found_terms);
    let values = page.runs(&found_values);
    let (running_time, credits) = read_data(&terms, &values);
    let old = candidate.duplicate();
    Film {
        title: old.title,
        url: old.url,
        poster_url: match read_page_poster(page) {
            Some(p) => Some(string_of(&p)),
            None => old.poster_url,
        },
        cast: join_if_any(&credits, " | "),
        release_date: None,
        running_time,
        synopsis: join_if_any(&read_first_prose(page), "\n\n"),
        showtimes: old.showtimes,
    }
}

impl CinemaScraper for NewBevScraper {
    open spec fn listing_request(&self) -> RequestView {
        RequestView::get(self.schedule_url@)
    }

    open spec fn planned(&self, body: Seq<char>) -> Seq<FilmView> {
        programmes_of(page_of(body))
    }

    open spec fn visits(&self) -> bool {
        true
    }

    open spec fn followed(&self, page: Seq<char>) -> Seq<Seq<char>> {
        Seq::empty()
    }

    open spec fn completed(
        &self,
        candidate: FilmView,
        page: Option<Seq<char>>,
        inner: Seq<Option<Seq<char>>>,
    ) -> Option<FilmView> {
        match page {
            Some(html) => Some(completed_of(candidate, page_of(html))),
            None => None,
        }
    }

    open spec fn feed_path(&self) -> Seq<char> {
        "docs/feeds/tarantino.xml"@
    }

    open spec fn warm_up_request(&self) -> Option<RequestView> {
        None
    }

    fn listing(&self) -> (r: Request) {
        Request::get(self.schedule_url.clone())
    }

    fn plan(&self, body: &str) -> (out: Vec<Film>) {
        arrange(&merge_films(&parse_schedule(&load(body))))
    }

    fn visits_candidates(&self) -> (b: bool) {
        true
    }

    fn follow(&self, page: &str) -> (urls: Vec<String>) {
        let urls: Vec<String> = Vec::new();
        assert(strings_view(urls@) =~= Seq::<Seq<char>>::empty());
        urls
    }

    fn complete(&self, candidate: &Film, page: &Option<String>, inner: &Vec<Option<String>>) -> (r:
        Option<Film>) {
        match page {
            Some(html) => Some(parse_program_page(candidate, &load(html.as_str()))),
            None => None,
        }
    }

    fn rss_filename(&self) -> (name: String) {
        "docs/feeds/tarantino.xml".to_owned()
    }

    fn warm_up(&self) -> (r: Option<Request>) {
        None
    }

    proof fn lemma_failed_page_gives_nothing(
        &self,
        candidate: FilmView,
        inner: Seq<Option<Seq<char>>>,
    ) {
    }
}

} // verus!
