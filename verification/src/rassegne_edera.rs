//! The film series of Cinema Edera, each with the films that it shows.

use crate::crawl::{pages_view, CinemaScraper, Request, RequestView};
use crate::discover::{bare_candidates, bare_films};
use crate::gather::one_if;
use crate::film::{
    join_if_any, joined_if_any, opt_chars, opt_string, opt_view, strings_view, text_if_any, Film,
    FilmView,
};
use crate::lines::{clean, clean_lines, find_with_prefix, first_with_prefix};
use crate::links::{make_prefixed, prefixed};
use crate::merge::{distinct, distinct_strings};
use crate::page::{
    attrs_in, first_line, scanned, strs_view, texts_in, NodeView, Page,
};
use crate::rassegne::{
    description_of, edera_origin, extract_poster, extract_synopsis, extract_title_fallback,
    heading_of, poster_of, series_of, series_urls,
};
use crate::text::{
    chars_of, concat, contains, copy, occurs_in, push_text, string_of, strings_of, views,
};
use vstd::prelude::*;

verus! {

/// The source of Cinema Edera's series, films included.
#[derive(Debug, Clone)]
pub struct RassegneScraperEdera {
    pub url: String,
}

impl RassegneScraperEdera {
    /// A source for the page that lists the series.
    pub fn new(url: String) -> (scraper: Self)
        ensures
            scraper.url@ == url@,
    {
        RassegneScraperEdera { url }
    }
}

/// The selectors that the pages are asked: the links to series; the
/// heading; the places where the description may stand; all links; a
/// film page's poster and its short description.
pub open spec fn selector_list() -> Seq<Seq<char>> {
    seq![
        "a[href*=\"/rassegne/\"]"@,
        "h1"@,
        "#main-content-wrapper section p"@,
        "div.entry-content p"@,
        "article div.entry-content p"@,
        "a[href]"@,
        ".movie__images img.img-responsive"@,
        "p.movie__describe"@,
    ]
}

/// The attributes that are read: `href` and `src`.
pub open spec fn name_list() -> Seq<Seq<char>> {
    seq!["href"@, "src"@]
}

/// The page that `html` parses to, as this source reads it.
pub open spec fn page_of(html: Seq<char>) -> Seq<NodeView> {
    scanned(html, selector_list(), name_list())
}

/// Parses a page of the site.
pub fn load(html: &str) -> (page: Page)
    ensures
        page@ == page_of(html@),
{
    let selectors = vec![
        "a[href*=\"/rassegne/\"]",
        "h1",
        "#main-content-wrapper section p",
        "div.entry-content p",
        "article div.entry-content p",
        "a[href]",
        ".movie__images img.img-responsive",
        "p.movie__describe",
    ];
    let names = vec!["href", "src"];
    assert(strs_view(selectors@) =~= selector_list());
    assert(strs_view(names@) =~= name_list());
    Page::parse(html, &selectors, &names)
}

/// The links to film pages among `hrefs`: those that speak of films and
/// not of series.
pub open spec fn film_links(hrefs: Seq<Seq<char>>) -> Seq<Seq<char>>
    decreases hrefs.len(),
{
    if hrefs.len() == 0 {
        Seq::empty()
    } else if !occurs_in(hrefs.last(), "/rassegne/"@) && (occurs_in(hrefs.last(), "/film"@)
        || occurs_in(hrefs.last(), "i-film"@)) {
        film_links(hrefs.drop_last()).push(prefixed(hrefs.last(), edera_origin()))
    } else {
        film_links(hrefs.drop_last())
    }
}

/// The film pages that a series page links to, each once, in the order
/// of their first link.
pub open spec fn films_of(nodes: Seq<NodeView>) -> Seq<Seq<char>> {
    distinct(film_links(clean_lines(attrs_in(nodes, 5, 0, 0, nodes.len() as int))))
}

/// The film pages that a series page links to.
pub fn inner_urls(page: &Page) -> (urls: Vec<String>)
    ensures
        strings_view(urls@) == films_of(page@),
{
    let hrefs = clean(&page.attr_values(5, 0));
    let series = chars_of("/rassegne/");
    let film = chars_of("/film");
    let films = chars_of("i-film");
    let mut found: Vec<Vec<char>> = Vec::new();
    let mut i: usize = 0;
    assert(views(found@) =~= film_links(views(hrefs@).take(0)));
    while i < hrefs.len()
        invariant
            i <= hrefs.len(),
            series@ == "/rassegne/"@,
            film@ == "/film"@,
            films@ == "i-film"@,
            views(found@) == film_links(views(hrefs@).take(i as int)),
        decreases hrefs.len() - i,
    {
        proof {
            assert(views(hrefs@).take(i + 1).drop_last() == views(hrefs@).take(i as int));
            assert(views(hrefs@).take(i + 1).last() == hrefs@[i as int]@);
        }
        let h = &hrefs[i];
        if !contains(h, &series) && (contains(h, &film) || contains(h, &films)) {
            push_text(&mut found, make_prefixed(h, "https://www.cinemaedera.it"));
        }
        i += 1;
    }
    proof {
        assert(views(hrefs@).take(hrefs.len() as int) == views(hrefs@));
    }
    let linked = strings_of(&found);
    assert(strings_view(linked@) =~= views(found@));
    distinct_strings(&linked)
}

/// The short description of a film page.
pub open spec fn short_text(nodes: Seq<NodeView>) -> Option<Seq<char>> {
    match first_line(nodes, 7, 0, nodes.len() as int) {
        Some(t) => text_if_any(t),
        None => None,
    }
}

/// The entry of a film in the description of its series: its title, and
/// its short description on the line below.
pub open spec fn film_entry(url: Seq<char>, nodes: Seq<NodeView>) -> Seq<char> {
    let title = match heading_of(nodes, 1) {
        Some(t) => t,
        None => url,
    };
    match short_text(nodes) {
        Some(s) => "* "@ + title + "\n"@ + s,
        None => "* "@ + title,
    }
}

/// The entries of the films whose pages have come, in order.
pub open spec fn film_entries(urls: Seq<Seq<char>>, pages: Seq<Option<Seq<char>>>) -> Seq<
    Seq<char>,
>
    decreases pages.len(),
{
    if pages.len() == 0 {
        Seq::empty()
    } else {
        let k = pages.len() - 1;
        match pages.last() {
            Some(html) => film_entries(urls, pages.drop_last()).push(
                film_entry(
                    if k < urls.len() {
                        urls[k]
                    } else {
                        Seq::empty()
                    },
                    page_of(html),
                ),
            ),
            None => film_entries(urls, pages.drop_last()),
        }
    }
}

/// The first poster among the film pages that have come.
pub open spec fn first_poster(pages: Seq<Option<Seq<char>>>, i: int) -> Option<Seq<char>>
    decreases pages.len() - i,
{
    if i < 0 || i >= pages.len() {
        None
    } else {
        match pages[i] {
            Some(html) => match poster_of(page_of(html), 6, edera_origin()) {
                Some(p) => Some(p),
                None => first_poster(pages, i + 1),
            },
            None => first_poster(pages, i + 1),
        }
    }
}

/// The films' part of a series' description: a heading and the entries,
/// where there is any entry.
pub open spec fn films_part(entries: Seq<Seq<char>>) -> Seq<Seq<char>> {
    if entries.len() > 0 {
        seq!["I film della rassegna:"@] + entries
    } else {
        Seq::empty()
    }
}

/// What the page of the series with the title `title` and the pages of
/// its films say of it.
pub open spec fn titled_series(
    title: Seq<char>,
    url: Seq<char>,
    html: Seq<char>,
    inner: Seq<Option<Seq<char>>>,
) -> FilmView {
    let nodes = page_of(html);
    let dates = first_with_prefix(
        clean_lines(texts_in(nodes, 0, nodes.len() as int)),
        "Dal "@,
        0,
    );
    FilmView {
        title,
        url,
        poster_url: first_poster(inner, 0),
        cast: None,
        release_date: dates,
        running_time: None,
        synopsis: joined_if_any(
            seq!["Cinema: Cinema Edera"@] + one_if(dates) + one_if(description_of(nodes, 2, 5))
                + films_part(film_entries(films_of(nodes), inner)),
            "\n\n"@,
        ),
        showtimes: None,
    }
}

/// The record of a series, given its page and the pages of its films;
/// none where its page has no heading with text in it.
pub open spec fn series_of_pages(
    url: Seq<char>,
    html: Seq<char>,
    inner: Seq<Option<Seq<char>>>,
) -> Option<FilmView> {
    match heading_of(page_of(html), 1) {
        Some(title) => Some(titled_series(title, url, html, inner)),
        None => None,
    }
}

fn read_entry(url: &Vec<char>, page: &Page) -> (out: Vec<char>)
    ensures
        out@ == film_entry(url@, page@),
{
    let title = match extract_title_fallback(page, 1) {
        Some(t) => t,
        None => copy(url),
    };
    let head = concat(&chars_of("* "), &title);
    let short = match page.first_line_in_range(7, 0, page.len()) {
        Some(t) => if t.len() > 0 {
            Some(t)
        } else {
            None
        },
        None => None,
    };
    match short {
        Some(s) => concat(&concat(&head, &chars_of("\n")), &s),
        None => head,
    }
}

fn read_entries(urls: &Vec<String>, pages: &Vec<Option<String>>) -> (out: Vec<Vec<char>>)
    ensures
        views(out@) == film_entries(strings_view(urls@), pages_view(pages@)),
{
    let mut out: Vec<Vec<char>> = Vec::new();
    let mut i: usize = 0;
    assert(views(out@) =~= film_entries(strings_view(urls@), pages_view(pages@).take(0)));
    while i < pages.len()
        invariant
            i <= pages.len(),
            views(out@) == film_entries(strings_view(urls@), pages_view(pages@).take(i as int)),
        decreases pages.len() - i,
    {
        proof {
            assert(pages_view(pages@).take(i + 1).drop_last() == pages_view(pages@).take(
                i as int,
            ));
            assert(pages_view(pages@).take(i + 1).last() == opt_view(pages@[i as int]));
        }
        match &pages[i] {
            Some(html) => {
                let url = if i < urls.len() {
                    chars_of(urls[i].as_str())
                } else {
                    Vec::new()
                };
                push_text(&mut out, read_entry(&url, &load(html.as_str())));
            },
            None => {},
        }
        i += 1;
    }
    proof {
        assert(pages_view(pages@).take(pages.len() as int) == pages_view(pages@));
    }
    out
}

fn read_first_poster(pages: &Vec<Option<String>>) -> (r: Option<Vec<char>>)
    ensures
        opt_chars(r) == first_poster(pages_view(pages@), 0),
{
    let mut i: usize = 0;
    while i < pages.len()
        invariant
            i <= pages.len(),
            first_poster(pages_view(pages@), i as int) == first_poster(pages_view(pages@), 0),
        decreases pages.len() - i,
    {
        match &pages[i] {
            Some(html) => {
                let poster = extract_poster(&load(html.as_str()), 6, "https://www.cinemaedera.it");
                if poster.is_some() {
                    return poster;
                }
            },
            None => {},
        }
        i += 1;
    }
    None
}

/// Reads the page of a series and the pages of its films.
pub fn series_from_pages(url: &str, html: &str, inner: &Vec<Option<String>>) -> (r: Option<Film>)
    ensures
        match r {
            Some(f) => series_of_pages(url@, html@, pages_view(inner@)) == Some(f@),
            None => series_of_pages(url@, html@, pages_view(inner@)) is None,
        },
{
    let page = load(html);
    let title = match extract_title_fallback(&page, 1) {
        Some(t) => t,
        None => {
            return None;
        },
    };
    let dates = find_with_prefix(&clean(&page.all_texts()), "Dal ");
    let mut parts: Vec<Vec<char>> = Vec::new();
    push_text(&mut parts, chars_of("Cinema: Cinema Edera"));
    assert(views(parts@) =~= seq!["Cinema: Cinema Edera"@]);
    match &dates {
        Some(d) => {
            push_text(&mut parts, copy(d));
        },
        None => {},
    }
    assert(views(parts@) =~= seq!["Cinema: Cinema Edera"@] + one_if(opt_chars(dates)));
    match extract_synopsis(&page, 2, 5) {
        Some(text) => {
            push_text(&mut parts, chars_of(text.as_str()));
        },
        None => {},
    }
    assert(views(parts@) =~= seq!["Cinema: Cinema Edera"@] + one_if(opt_chars(dates)) + one_if(
        description_of(page@, 2, 5),
    ));
    let mut entries = read_entries(&inner_urls(&page), inner);
    let ghost listed = views(entries@);
    if entries.len() > 0 {
        let ghost before = views(parts@);
        push_text(&mut parts, chars_of("I film della rassegna:"));
        let ghost mid = views(parts@);
        parts.append(&mut entries);
        assert(views(parts@) =~= mid + listed);
        assert(mid + listed =~= before + (seq!["I film della rassegna:"@] + listed));
    } else {
        assert(views(parts@) + Seq::<Seq<char>>::empty() =~= views(parts@));
    }
    Some(
        Film {
            title: string_of(&title),
            url: url.to_owned(),
            poster_url: opt_string(&read_first_poster(inner)),
            cast: None,
            release_date: opt_string(&dates),
            running_time: None,
            synopsis: join_if_any(&parts, "\n\n"),
            showtimes: None,
        },
    )
}

impl CinemaScraper for RassegneScraperEdera {
    open spec fn listing_request(&self) -> RequestView {
        RequestView::get(self.url@)
    }

    open spec fn planned(&self, body: Seq<char>) -> Seq<FilmView> {
        bare_films(series_of(page_of(body)))
    }

    open spec fn visits(&self) -> bool {
        true
    }

    open spec fn followed(&self, page: Seq<char>) -> Seq<Seq<char>> {
        films_of(page_of(page))
    }

    open spec fn completed(
        &self,
        candidate: FilmView,
        page: Option<Seq<char>>,
        inner: Seq<Option<Seq<char>>>,
    ) -> Option<FilmView> {
        match page {
            Some(html) => series_of_pages(candidate.url, html, inner),
            None => None,
        }
    }

    open spec fn feed_path(&self) -> Seq<char> {
        "rassegne_edera.xml"@
    }

    open spec fn warm_up_request(&self) -> Option<RequestView> {
        None
    }

    fn listing(&self) -> (r: Request) {
        Request::get(self.url.clone())
    }

    fn plan(&self, body: &str) -> (out: Vec<Film>) {
        bare_candidates(&series_urls(&load(body)))
    }

    fn visits_candidates(&self) -> (b: bool) {
        true
    }

    fn follow(&self, page: &str) -> (urls: Vec<String>) {
        inner_urls(&load(page))
    }

    fn complete(&self, candidate: &Film, page: &Option<String>, inner: &Vec<Option<String>>) -> (r:
        Option<Film>) {
        match page {
            Some(html) => series_from_pages(candidate.url.as_str(), html.as_str(), inner),
            None => None,
        }
    }

    fn rss_filename(&self) -> (name: String) {
        "rassegne_edera.xml".to_owned()
    }

    fn warm_up(&self) -> (r: Option<Request>) {
        None
    }

    proof fn lemma_failed_page_gives_nothing(
        &self,
        candidate: FilmView,
        inner: Seq<Option<Seq<char>>>,
    ) {
    }
}

} // verus!
