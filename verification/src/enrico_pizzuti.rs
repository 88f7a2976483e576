//! Circolo Cinematografico Enrico Pizzuti (Cinema Turroni, Oderzo): the
//! films of the current film club season.

use crate::crawl::{CinemaScraper, Request, RequestView};
use crate::discover::{bare_candidates, bare_films, sort_unique, sorted_set};
use crate::gather::one_if;
use crate::film::{join_if_any, joined_if_any, opt_string, opt_view, strings_view, Film, FilmView};
use crate::links::{make_prefixed, prefixed};
use crate::page::{
    attr_of, attrs_in, filled_line, first_match, matches_in, parent_of, scanned, strs_view,
    subtree_end, texts_of, NodeView, Page,
};
use crate::text::{
    chars_of, contains, lowercase, occurs_in, push_text, string_of, to_lowercase, trim, trimmed,
    views,
};
use crate::tokens::{join, joined};
use vstd::prelude::*;

verus! {

/// The source of the film club's season.
#[derive(Debug, Clone)]
pub struct EnricoPizzutiScraper {
    pub url: String,
}

impl EnricoPizzutiScraper {
    /// A source for the front page at the given address.
    pub fn new(url: String) -> (scraper: Self)
        ensures
            scraper.url@ == url@,
    {
        EnricoPizzutiScraper { url }
    }
}

/// The site's origin.
pub open spec fn origin() -> Seq<char> {
    "https://www.enricopizzuti.it"@
}

/// The selectors that the site's pages are asked: small headings and
/// links; on a film page the description block with its date, its cast
/// block (director, country, cast) and its heading, and the content
/// block with its text and its image.
pub open spec fn selector_list() -> Seq<Seq<char>> {
    seq![
        "h5"@,
        "a[href]"@,
        "div.container.film-description"@,
        "div.film-date"@,
        "div.film-cast"@,
        "div.director"@,
        "div.nazione"@,
        "div.cast"@,
        "h1"@,
        "div.film-content"@,
        "div.film-text p"@,
        "div.film-screens img"@,
    ]
}

/// The attributes that are read: `href` and `src`.
pub open spec fn name_list() -> Seq<Seq<char>> {
    seq!["href"@, "src"@]
}

/// The page that `html` parses to, as this source reads it.
pub open spec fn page_of(html: Seq<char>) -> Seq<NodeView> {
    scanned(html, selector_list(), name_list())
}

/// Parses a page of the site.
pub fn load(html: &str) -> (page: Page)
    ensures
        page@ == page_of(html@),
{
    let selectors = vec![
        "h5",
        "a[href]",
        "div.container.film-description",
        "div.film-date",
        "div.film-cast",
        "div.director",
        "div.nazione",
        "div.cast",
        "h1",
        "div.film-content",
        "div.film-text p",
        "div.film-screens img",
    ];
    let names = vec!["href", "src"];
    assert(strs_view(selectors@) =~= selector_list());
    assert(strs_view(names@) =~= name_list());
    Page::parse(html, &selectors, &names)
}

/// The texts in lower case, each trimmed first.
pub open spec fn lowered(texts: Seq<Seq<char>>) -> Seq<Seq<char>> {
    Seq::new(texts.len(), |i: int| lowercase(trimmed(texts[i])))
}

/// Texts in lower case that, put on one line, name the film club.
pub open spec fn names_club(low: Seq<Seq<char>>) -> bool {
    occurs_in(joined(low, " "@), "cineforum"@)
}

/// Whether texts in lower case, put on one line, name the film club.
pub fn is_club_name(low: &Vec<Vec<char>>) -> (r: bool)
    ensures
        r == names_club(views(low@)),
{
    contains(&join(low, &chars_of(" ")), &chars_of("cineforum"))
}

/// A heading that opens the film club's season.
pub open spec fn opens_club(nodes: Seq<NodeView>, h: int) -> bool {
    names_club(lowered(texts_of(nodes, h)))
}

/// The links to film pages among `hrefs`.
pub open spec fn film_links(hrefs: Seq<Seq<char>>) -> Seq<Seq<char>>
    decreases hrefs.len(),
{
    if hrefs.len() == 0 {
        Seq::empty()
    } else if occurs_in(hrefs.last(), "/film/"@) {
        film_links(hrefs.drop_last()).push(prefixed(hrefs.last(), origin()))
    } else {
        film_links(hrefs.drop_last())
    }
}

/// The film pages that the subtree of a node links to.
pub open spec fn links_under(nodes: Seq<NodeView>, container: int) -> Seq<Seq<char>> {
    film_links(attrs_in(nodes, 1, 0, container + 1, subtree_end(nodes, container)))
}

/// The film links of the nearest container of node `cur` that has any.
/// The containers looked at are its parent and then every second
/// ancestor above, `budget` of them at most.
pub open spec fn container_links(nodes: Seq<NodeView>, cur: int, budget: nat) -> Seq<Seq<char>>
    decreases budget,
{
    if budget == 0 || cur < 0 || cur >= nodes.len() {
        Seq::empty()
    } else {
        match parent_of(nodes, cur) {
            None => Seq::empty(),
            Some(p) => if p < 0 || p >= nodes.len() {
                Seq::empty()
            } else if links_under(nodes, p).len() > 0 {
                links_under(nodes, p)
            } else {
                match parent_of(nodes, p) {
                    Some(g) => container_links(nodes, g, (budget - 1) as nat),
                    None => Seq::empty(),
                }
            },
        }
    }
}

/// The film links of the season: those of the first heading from `i` on
/// that opens the club's season and has a container with any.
pub open spec fn season_links(nodes: Seq<NodeView>, headings: Seq<int>, i: int) -> Seq<Seq<char>>
    decreases headings.len() - i,
{
    if i < 0 || i >= headings.len() {
        Seq::empty()
    } else if opens_club(nodes, headings[i]) && container_links(nodes, headings[i], 6).len() > 0 {
        container_links(nodes, headings[i], 6)
    } else {
        season_links(nodes, headings, i + 1)
    }
}

/// The addresses to visit for the front page: the films of the season,
/// each once, ascending.
pub open spec fn visits_of(nodes: Seq<NodeView>) -> Seq<Seq<char>> {
    sorted_set(season_links(nodes, matches_in(nodes, 0, 0, nodes.len() as int), 0))
}

fn club_heading(page: &Page, h: usize) -> (r: bool)
    requires
        h < page@.len(),
    ensures
        r == opens_club(page@, h as int),
{
    let texts = page.texts(h);
    let mut low: Vec<Vec<char>> = Vec::new();
    let mut i: usize = 0;
    while i < texts.len()
        invariant
            i <= texts.len(),
            low@.len() == i,
            forall|j: int| 0 <= j < i ==> (#[trigger] low@[j])@ == lowercase(trimmed(texts@[j]@)),
        decreases texts.len() - i,
    {
        low.push(to_lowercase(&trim(&texts[i])));
        i += 1;
    }
    assert(views(low@) =~= lowered(views(texts@)));
    is_club_name(&low)
}

fn read_links_under(page: &Page, container: usize) -> (out: Vec<Vec<char>>)
    requires
        container < page@.len(),
    ensures
        views(out@) == links_under(page@, container as int),
{
    let end = page.end_of(container);
    let hrefs = page.attrs_range(1, 0, container + 1, end);
    let film = chars_of("/film/");
    let mut out: Vec<Vec<char>> = Vec::new();
    let mut i: usize = 0;
    assert(views(out@) =~= film_links(views(hrefs@).take(0)));
    while i < hrefs.len()
        invariant
            i <= hrefs.len(),
            film@ == "/film/"@,
            views(out@) == film_links(views(hrefs@).take(i as int)),
        decreases hrefs.len() - i,
    {
        proof {
            assert(views(hrefs@).take(i + 1).drop_last() == views(hrefs@).take(i as int));
            assert(views(hrefs@).take(i + 1).last() == hrefs@[i as int]@);
        }
        if contains(&hrefs[i], &film) {
            push_text(&mut out, make_prefixed(&hrefs[i], "https://www.enricopizzuti.it"));
        }
        i += 1;
    }
    proof {
        assert(views(hrefs@).take(hrefs.len() as int) == views(hrefs@));
    }
    out
}

fn read_container_links(page: &Page, start: usize) -> (out: Vec<Vec<char>>)
    requires
        start < page@.len(),
    ensures
        views(out@) == container_links(page@, start as int, 6),
{
    let mut cur: usize = start;
    let mut budget: usize = 6;
    while budget > 0
        invariant
            cur < page@.len(),
            container_links(page@, cur as int, budget as nat) == container_links(
                page@,
                start as int,
                6,
            ),
        decreases budget,
    {
        let p = match page.parent(cur) {
            Some(p) => p,
            None => {
                let none: Vec<Vec<char>> = Vec::new();
                assert(views(none@) =~= Seq::<Seq<char>>::empty());
                return none;
            },
        };
        let links = read_links_under(page, p);
        if links.len() > 0 {
            return links;
        }
        match page.parent(p) {
            Some(g) => {
                cur = g;
            },
            None => {
                let none: Vec<Vec<char>> = Vec::new();
                assert(views(none@) =~= Seq::<Seq<char>>::empty());
                return none;
            },
        }
        budget -= 1;
    }
    let none: Vec<Vec<char>> = Vec::new();
    assert(views(none@) =~= Seq::<Seq<char>>::empty());
    none
}

/// The addresses to visit for the front page.
pub fn film_urls(page: &Page) -> (urls: Vec<Vec<char>>)
    ensures
        views(urls@) == visits_of(page@),
{
    sort_unique(&read_season_links(page))
}

fn read_season_links(page: &Page) -> (out: Vec<Vec<char>>)
    ensures
        views(out@) == season_links(page@, matches_in(page@, 0, 0, page@.len() as int), 0),
{
    let headings = page.select(0);
    let ghost all = headings@.map_values(|j: usize| j as int);
    let mut i: usize = 0;
    while i < headings.len()
        invariant
            i <= headings.len(),
            all == headings@.map_values(|j: usize| j as int),
            all == matches_in(page@, 0, 0, page@.len() as int),
            forall|k: int| 0 <= k < headings@.len() ==> #[trigger] headings@[k] < page@.len(),
            season_links(page@, all, i as int) == season_links(page@, all, 0),
        decreases headings.len() - i,
    {
        assert(all[i as int] == headings@[i as int] as int);
        if club_heading(page, headings[i]) {
            let links = read_container_links(page, headings[i]);
            if links.len() > 0 {
                return links;
            }
        }
        i += 1;
    }
    let none: Vec<Vec<char>> = Vec::new();
    assert(views(none@) =~= Seq::<Seq<char>>::empty());
    none
}

/// The credits of a film: director, country and cast, as far as the
/// cast block below the description block has them.
pub open spec fn credits_of(nodes: Seq<NodeView>, block: int) -> Option<Seq<char>> {
    match first_match(nodes, 4, block + 1, subtree_end(nodes, block)) {
        Some(c) => {
            let end = subtree_end(nodes, c);
            joined_if_any(
                one_if(filled_line(nodes, 5, c + 1, end)) + one_if(
                    filled_line(nodes, 6, c + 1, end),
                ) + one_if(filled_line(nodes, 7, c + 1, end)),
                " | "@,
            )
        },
        None => None,
    }
}

/// The synopsis of a film: the first paragraph of the content block's text.
pub open spec fn synopsis_of(nodes: Seq<NodeView>) -> Option<Seq<char>> {
    match first_match(nodes, 9, 0, nodes.len() as int) {
        Some(c) => filled_line(nodes, 10, c + 1, subtree_end(nodes, c)),
        None => None,
    }
}

/// The poster of a film: the address of the content block's first image,
/// as it stands, unless it is blank.
pub open spec fn poster_of(nodes: Seq<NodeView>) -> Option<Seq<char>> {
    match first_match(nodes, 9, 0, nodes.len() as int) {
        Some(c) => match first_match(nodes, 11, c + 1, subtree_end(nodes, c)) {
            Some(j) => match attr_of(nodes, j, 1) {
                Some(src) => if trimmed(src).len() > 0 {
                    Some(src)
                } else {
                    None
                },
                None => None,
            },
            None => None,
        },
        None => None,
    }
}

/// The record that a film page gives; none where it has no description
/// block, or no heading with text in it for a title. The screening's date
/// is both the release date and the one showtime.
pub open spec fn film_of(url: Seq<char>, nodes: Seq<NodeView>) -> Option<FilmView> {
    match first_match(nodes, 2, 0, nodes.len() as int) {
        None => None,
        Some(block) => {
            let end = subtree_end(nodes, block);
            let date = filled_line(nodes, 3, block + 1, end);
            match filled_line(nodes, 8, block + 1, end) {
                None => None,
                Some(title) => Some(
                    FilmView {
                        title,
                        url,
                        poster_url: poster_of(nodes),
                        cast: credits_of(nodes, block),
                        release_date: date,
                        running_time: None,
                        synopsis: synopsis_of(nodes),
                        showtimes: match date {
                            Some(d) => Some(seq![d]),
                            None => None,
                        },
                    },
                ),
            }
        },
    }
}

fn read_credits(page: &Page, block: usize) -> (r: Option<String>)
    requires
        block < page@.len(),
    ensures
        opt_view(r) == credits_of(page@, block as int),
{
    let c = match page.first_in(block, 4) {
        Some(c) => c,
        None => {
            return None;
        },
    };
    let end = page.end_of(c);
    let mut parts: Vec<Vec<char>> = Vec::new();
    assert(views(parts@) =~= Seq::<Seq<char>>::empty());
    let ghost director = filled_line(page@, 5, c + 1, end as int);
    let ghost country = filled_line(page@, 6, c + 1, end as int);
    let ghost cast = filled_line(page@, 7, c + 1, end as int);
    match page.filled_line_in_range(5, c + 1, end) {
        Some(t) => {
            push_text(&mut parts, t);
        },
        None => {},
    }
    assert(views(parts@) =~= one_if(director));
    match page.filled_line_in_range(6, c + 1, end) {
        Some(t) => {
            push_text(&mut parts, t);
        },
        None => {},
    }
    assert(views(parts@) =~= one_if(director) + one_if(country));
    match page.filled_line_in_range(7, c + 1, end) {
        Some(t) => {
            push_text(&mut parts, t);
        },
        None => {},
    }
    assert(views(parts@) =~= one_if(director) + one_if(country) + one_if(cast));
    join_if_any(&parts, " | ")
}

/// Reads a film page.
pub fn film_from_page(url: &str, page: &Page) -> (r: Option<Film>)
    ensures
        match r {
            Some(f) => film_of(url@, page@) == Some(f@),
            None => film_of(url@, page@) is None,
        },
{
    let block = match page.first(2) {
        Some(b) => b,
        None => {
            return None;
        },
    };
    let end = page.end_of(block);
    let title = match page.filled_line_in_range(8, block + 1, end) {
        Some(t) => t,
        None => {
            return None;
        },
    };
    let date = page.filled_line_in_range(3, block + 1, end);
    let (synopsis, poster) = match page.first(9) {
        Some(c) => {
            let inner = page.end_of(c);
            let poster = match page.first_in_range(11, c + 1, inner) {
                Some(j) => match page.attr(j, 1) {
                    Some(src) => if trim(&src).len() > 0 {
                        Some(src)
                    } else {
                        None
                    },
                    None => None,
                },
                None => None,
            };
            (page.filled_line_in_range(10, c + 1, inner), poster)
        },
        None => (None, None),
    };
    let showtimes = match &date {
        Some(d) => {
            let mut one: Vec<String> = Vec::new();
            one.push(string_of(d));
            assert(strings_view(one@) =~= seq![d@]);
            Some(one)
        },
        None => None,
    };
    Some(
        Film {
            title: string_of(&title),
            url: url.to_owned(),
            poster_url: opt_string(&poster),
            cast: read_credits(page, block),
            release_date: opt_string(&date),
            running_time: None,
            synopsis: opt_string(&synopsis),
            showtimes,
        },
    )
}

impl CinemaScraper for EnricoPizzutiScraper {
    open spec fn listing_request(&self) -> RequestView {
        RequestView::get(self.url@)
    }

    open spec fn planned(&self, body: Seq<char>) -> Seq<FilmView> {
        bare_films(visits_of(page_of(body)))
    }

    open spec fn visits(&self) -> bool {
        true
    }

    open spec fn followed(&self, page: Seq<char>) -> Seq<Seq<char>> {
        Seq::empty()
    }

    open spec fn completed(
        &self,
        candidate: FilmView,
        page: Option<Seq<char>>,
        inner: Seq<Option<Seq<char>>>,
    ) -> Option<FilmView> {
        match page {
            Some(html) => film_of(candidate.url, page_of(html)),
            None => None,
        }
    }

    open spec fn feed_path(&self) -> Seq<char> {
        "docs/feeds/enrico_pizzuti.xml"@
    }

    open spec fn warm_up_request(&self) -> Option<RequestView> {
        None
    }

    fn listing(&self) -> (r: Request) {
        Request::get(self.url.clone())
    }

    fn plan(&self, body: &str) -> (out: Vec<Film>) {
        bare_candidates(&film_urls(&load(body)))
    }

    fn visits_candidates(&self) -> (b: bool) {
        true
    }

    fn follow(&self, page: &str) -> (urls: Vec<String>) {
        let urls: Vec<String> = Vec::new();
        assert(strings_view(urls@) =~= Seq::<Seq<char>>::empty());
        urls
    }

    fn complete(&self, candidate: &Film, page: &Option<String>, inner: &Vec<Option<String>>) -> (r:
        Option<Film>) {
        match page {
            Some(html) => film_from_page(candidate.url.as_str(), &load(html.as_str())),
            None => None,
        }
    }

    fn rss_filename(&self) -> (name: String) {
        "docs/feeds/enrico_pizzuti.xml".to_owned()
    }

    fn warm_up(&self) -> (r: Option<Request>) {
        None
    }

    proof fn lemma_failed_page_gives_nothing(
        &self,
        candidate: FilmView,
        inner: Seq<Option<Seq<char>>>,
    ) {
    }
}

} // verus!
