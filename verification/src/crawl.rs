//! The run of one source, as a state machine.
//!
//! A run fetches the listing, plans the candidates that it names, fetches
//! each candidate's page (and the pages that one links to, where the source
//! follows them), completes the candidate into a record, and merges the
//! records at the end. The machine decides; its caller performs each
//! request and hands the response back. A listing that cannot be fetched
//! fails the run. A candidate's page that cannot be fetched never does: it
//! costs that candidate, which gives no record, and the run goes on. A
//! record without a title or an address is never taken in.

use crate::film::{films_view, opt_view, strings_view, Film, FilmView};
use crate::merge::{
    all_emittable, distinct_urls, lemma_merged_emittable, lemma_merged_is_clean, merge_films, merged,
};
use vstd::prelude::*;

verus! {

/// The user agent that every request carries.
pub open spec fn user_agent() -> Seq<char> {
    "Mozilla/5.0 (Windows NT 10.0; Win64; x64) AppleWebKit/537.36 (KHTML, like Gecko) Chrome/143.0.0.0 Safari/537.36"@
}

/// A GET request.
#[derive(Debug, Clone)]
pub struct Request {
    pub url: String,
    pub user_agent: String,
    /// The `Accept` header, where the source sends one.
    pub accept: Option<String>,
    /// Query parameters, in order.
    pub query: Vec<(String, String)>,
}

/// The mathematical content of a `Request`.
pub ghost struct RequestView {
    pub url: Seq<char>,
    pub user_agent: Seq<char>,
    pub accept: Option<Seq<char>>,
    pub query: Seq<(Seq<char>, Seq<char>)>,
}

impl View for Request {
    type V = RequestView;

    open spec fn view(&self) -> RequestView {
        RequestView {
            url: self.url@,
            user_agent: self.user_agent@,
            accept: opt_view(self.accept),
            query: Seq::new(self.query@.len(), |i: int| (self.query@[i].0@, self.query@[i].1@)),
        }
    }
}

impl RequestView {
    /// The plain request for an address.
    pub open spec fn get(url: Seq<char>) -> RequestView {
        RequestView { url, user_agent: user_agent(), accept: None, query: Seq::empty() }
    }
}

impl Request {
    /// The plain request for an address.
    pub fn get(url: String) -> (r: Request)
        ensures
            r@ == RequestView::get(url@),
    {
        let r = Request {
            url,
            user_agent: "Mozilla/5.0 (Windows NT 10.0; Win64; x64) AppleWebKit/537.36 (KHTML, like Gecko) Chrome/143.0.0.0 Safari/537.36".to_owned(),
            accept: None,
            query: Vec::new(),
        };
        assert(r@.query =~= Seq::empty());
        r
    }
}

/// The contents of a list of optional strings.
pub open spec fn pages_view(v: Seq<Option<String>>) -> Seq<Option<Seq<char>>> {
    Seq::new(v.len(), |i: int| opt_view(v[i]))
}

/// One venue's way of reading its site.
pub trait CinemaScraper {
    /// The request for the listing.
    spec fn listing_request(&self) -> RequestView;

    /// The candidates that a listing names.
    spec fn planned(&self, body: Seq<char>) -> Seq<FilmView>;

    /// Whether each candidate's own page is fetched.
    spec fn visits(&self) -> bool;

    /// The addresses that a candidate's page links to and that are fetched too.
    spec fn followed(&self, page: Seq<char>) -> Seq<Seq<char>>;

    /// The record of a candidate, given its page and the pages followed
    /// from it, each absent where its fetch failed; `None` drops the candidate.
    spec fn completed(
        &self,
        candidate: FilmView,
        page: Option<Seq<char>>,
        inner: Seq<Option<Seq<char>>>,
    ) -> Option<FilmView>;

    /// The file that the venue's own feed is written to.
    spec fn feed_path(&self) -> Seq<char>;

    /// The request that is made before the run, where the site wants one
    /// to hand out its cookies.
    spec fn warm_up_request(&self) -> Option<RequestView>;

    fn listing(&self) -> (r: Request)
        ensures
            r@ == self.listing_request(),
    ;

    fn plan(&self, body: &str) -> (out: Vec<Film>)
        ensures
            films_view(out@) == self.planned(body@),
    ;

    fn visits_candidates(&self) -> (b: bool)
        ensures
            b == self.visits(),
    ;

    fn follow(&self, page: &str) -> (urls: Vec<String>)
        ensures
            strings_view(urls@) == self.followed(page@),
    ;

    fn complete(&self, candidate: &Film, page: &Option<String>, inner: &Vec<Option<String>>) -> (r:
        Option<Film>)
        ensures
            match r {
                Some(f) => self.completed(candidate@, opt_view(*page), pages_view(inner@)) == Some(
                    f@,
                ),
                None => self.completed(candidate@, opt_view(*page), pages_view(inner@)) is None,
            },
    ;

    fn rss_filename(&self) -> (name: String)
        ensures
            name@ == self.feed_path(),
    ;

    fn warm_up(&self) -> (r: Option<Request>)
        ensures
            match r {
                Some(q) => self.warm_up_request() == Some(q@),
                None => self.warm_up_request() is None,
            },
    ;

    /// The rule that every source keeps: where candidates' pages are
    /// fetched, a candidate whose page could not be fetched gives no record.
    proof fn lemma_failed_page_gives_nothing(
        &self,
        candidate: FilmView,
        inner: Seq<Option<Seq<char>>>,
    )
        ensures
            self.visits() ==> self.completed(candidate, None, inner) is None,
    ;
}

/// Where a run stands.
#[derive(Debug, Clone, Copy, PartialEq, Eq, Structural)]
pub enum Phase {
    /// The listing has been asked for.
    Listing,
    /// The current candidate's page has been asked for.
    Detail,
    /// A page that the current candidate's page links to has been asked for.
    Inner,
    /// The run is over and has its records.
    Done,
    /// The listing could not be fetched.
    Failed,
}

/// The state of a run.
#[derive(Debug)]
pub struct Crawl {
    pub phase: Phase,
    pub candidates: Vec<Film>,
    /// Index of the current candidate.
    pub index: usize,
    /// The current candidate's page, once it has come.
    pub page: Option<String>,
    /// The addresses followed from the current candidate's page.
    pub inner_urls: Vec<String>,
    /// The pages that have come for them, in order.
    pub inner_pages: Vec<Option<String>>,
    /// The records completed so far.
    pub films: Vec<Film>,
}

/// The mathematical content of a `Crawl`.
pub ghost struct CrawlView {
    pub phase: Phase,
    pub candidates: Seq<FilmView>,
    pub index: nat,
    pub page: Option<Seq<char>>,
    pub inner_urls: Seq<Seq<char>>,
    pub inner_pages: Seq<Option<Seq<char>>>,
    pub films: Seq<FilmView>,
}

impl View for Crawl {
    type V = CrawlView;

    open spec fn view(&self) -> CrawlView {
        CrawlView {
            phase: self.phase,
            candidates: films_view(self.candidates@),
            index: self.index as nat,
            page: opt_view(self.page),
            inner_urls: strings_view(self.inner_urls@),
            inner_pages: pages_view(self.inner_pages@),
            films: films_view(self.films@),
        }
    }
}

/// What the caller of a run does next.
#[derive(Debug)]
pub enum Action {
    /// Perform the request and hand the response to `advance`.
    Fetch(Request),
    /// The run is over: these are its records.
    Finish(Vec<Film>),
    /// The run has failed: the listing could not be fetched.
    Fail,
}

/// The mathematical content of an `Action`.
pub ghost enum ActionView {
    Fetch(RequestView),
    Finish(Seq<FilmView>),
    Fail,
}

impl View for Action {
    type V = ActionView;

    open spec fn view(&self) -> ActionView {
        match self {
            Action::Fetch(r) => ActionView::Fetch(r@),
            Action::Finish(films) => ActionView::Finish(films_view(films@)),
            Action::Fail => ActionView::Fail,
        }
    }
}

/// `films` with `film` added, where there is one and it has a title and an address.
pub open spec fn kept(films: Seq<FilmView>, film: Option<FilmView>) -> Seq<FilmView> {
    match film {
        Some(f) => if f.emittable() {
            films.push(f)
        } else {
            films
        },
        None => films,
    }
}

/// The records of the candidates from `from` on, each completed without a
/// page, added to `films`.
pub open spec fn completed_all<S: CinemaScraper>(
    s: S,
    candidates: Seq<FilmView>,
    from: int,
    films: Seq<FilmView>,
) -> Seq<FilmView>
    decreases candidates.len() - from,
{
    if from < 0 || from >= candidates.len() {
        films
    } else {
        completed_all(
            s,
            candidates,
            from + 1,
            kept(films, s.completed(candidates[from], None, Seq::empty())),
        )
    }
}

/// The state at which a run starts.
pub open spec fn initial() -> CrawlView {
    CrawlView {
        phase: Phase::Listing,
        candidates: Seq::empty(),
        index: 0,
        page: None,
        inner_urls: Seq::empty(),
        inner_pages: Seq::empty(),
        films: Seq::empty(),
    }
}

/// The state turned to the candidate at `v.index`: its page is asked for,
/// or the run is over where no candidate is left.
pub open spec fn turned(v: CrawlView) -> CrawlView {
    CrawlView {
        phase: if v.index < v.candidates.len() {
            Phase::Detail
        } else {
            Phase::Done
        },
        page: None,
        inner_urls: Seq::empty(),
        inner_pages: Seq::empty(),
        ..v
    }
}

/// The state after the current candidate has been completed from what has
/// come for it.
pub open spec fn finished_candidate<S: CinemaScraper>(v: CrawlView, s: S) -> CrawlView {
    if v.index < v.candidates.len() {
        turned(
            CrawlView {
                films: kept(
                    v.films,
                    s.completed(v.candidates[v.index as int], v.page, v.inner_pages),
                ),
                index: v.index + 1,
                ..v
            },
        )
    } else {
        turned(v)
    }
}

/// The state after the response to the outstanding request has come;
/// `None` says that the request failed.
pub open spec fn advanced<S: CinemaScraper>(
    v: CrawlView,
    s: S,
    response: Option<Seq<char>>,
) -> CrawlView {
    match v.phase {
        Phase::Listing => match response {
            None => CrawlView { phase: Phase::Failed, ..v },
            Some(body) => if s.visits() {
                turned(CrawlView { candidates: s.planned(body), index: 0, ..v })
            } else {
                CrawlView {
                    phase: Phase::Done,
                    candidates: s.planned(body),
                    films: completed_all(s, s.planned(body), 0, v.films),
                    ..v
                }
            },
        },
        Phase::Detail => {
            let inner = match response {
                Some(page) => s.followed(page),
                None => Seq::empty(),
            };
            let w = CrawlView {
                page: response,
                inner_urls: inner,
                inner_pages: Seq::empty(),
                ..v
            };
            if inner.len() == 0 {
                finished_candidate(w, s)
            } else {
                CrawlView { phase: Phase::Inner, ..w }
            }
        },
        Phase::Inner => {
            let w = CrawlView { inner_pages: v.inner_pages.push(response), ..v };
            if w.inner_pages.len() >= w.inner_urls.len() {
                finished_candidate(w, s)
            } else {
                w
            }
        },
        Phase::Done => v,
        Phase::Failed => v,
    }
}

/// What the caller does in state `v`.
pub open spec fn action_of<S: CinemaScraper>(v: CrawlView, s: S) -> ActionView {
    match v.phase {
        Phase::Listing => ActionView::Fetch(s.listing_request()),
        Phase::Detail => if v.index < v.candidates.len() {
            ActionView::Fetch(RequestView::get(v.candidates[v.index as int].url))
        } else {
            ActionView::Finish(merged(v.films))
        },
        Phase::Inner => if v.inner_pages.len() < v.inner_urls.len() {
            ActionView::Fetch(RequestView::get(v.inner_urls[v.inner_pages.len() as int]))
        } else {
            ActionView::Finish(merged(v.films))
        },
        Phase::Done => ActionView::Finish(merged(v.films)),
        Phase::Failed => ActionView::Fail,
    }
}

/// Adds `film` to `films`, where there is one and it has a title and an address.
pub fn keep(films: &mut Vec<Film>, film: Option<Film>)
    ensures
        films_view(final(films)@) == kept(
            films_view(old(films)@),
            match film {
                Some(f) => Some(f@),
                None => None,
            },
        ),
{
    match film {
        Some(f) => {
            if f.title.as_str().unicode_len() > 0 && f.url.as_str().unicode_len() > 0 {
                let ghost before = films_view(films@);
                films.push(f);
                assert(films_view(films@) =~= before.push(f@));
            }
        },
        None => {},
    }
}

impl Crawl {
    /// The state at which a run starts: the listing is asked for.
    pub fn start() -> (crawl: Crawl)
        ensures
            crawl@ == initial(),
    {
        let crawl = Crawl {
            phase: Phase::Listing,
            candidates: Vec::new(),
            index: 0,
            page: None,
            inner_urls: Vec::new(),
            inner_pages: Vec::new(),
            films: Vec::new(),
        };
        assert(crawl@.candidates =~= Seq::empty());
        assert(crawl@.inner_urls =~= Seq::empty());
        assert(crawl@.inner_pages =~= Seq::empty());
        assert(crawl@.films =~= Seq::empty());
        crawl
    }

    /// What the caller does next.
    pub fn action<S: CinemaScraper>(&self, scraper: &S) -> (a: Action)
        ensures
            a@ == action_of(self@, *scraper),
    {
        match self.phase {
            Phase::Listing => Action::Fetch(scraper.listing()),
            Phase::Detail => {
                if self.index < self.candidates.len() {
                    Action::Fetch(Request::get(self.candidates[self.index].url.clone()))
                } else {
                    Action::Finish(merge_films(&self.films))
                }
            },
            Phase::Inner => {
                if self.inner_pages.len() < self.inner_urls.len() {
                    Action::Fetch(Request::get(self.inner_urls[self.inner_pages.len()].clone()))
                } else {
                    Action::Finish(merge_films(&self.films))
                }
            },
            Phase::Done => Action::Finish(merge_films(&self.films)),
            Phase::Failed => Action::Fail,
        }
    }

    /// Turns to the candidate at `index`.
    fn turn(self) -> (next: Crawl)
        ensures
            next@ == turned(self@),
    {
        let phase = if self.index < self.candidates.len() {
            Phase::Detail
        } else {
            Phase::Done
        };
        let next = Crawl {
            phase,
            candidates: self.candidates,
            index: self.index,
            page: None,
            inner_urls: Vec::new(),
            inner_pages: Vec::new(),
            films: self.films,
        };
        assert(next@.inner_urls =~= Seq::empty());
        assert(next@.inner_pages =~= Seq::empty());
        next
    }

    /// Completes the current candidate from what has come for it.
    fn finish_candidate<S: CinemaScraper>(self, scraper: &S) -> (next: Crawl)
        ensures
            next@ == finished_candidate(self@, *scraper),
    {
        if self.index < self.candidates.len() {
            let film = scraper.complete(
                &self.candidates[self.index],
                &self.page,
                &self.inner_pages,
            );
            let mut films = self.films;
            keep(&mut films, film);
            let next = Crawl {
                phase: self.phase,
                candidates: self.candidates,
                index: self.index + 1,
                page: self.page,
                inner_urls: self.inner_urls,
                inner_pages: self.inner_pages,
                films,
            };
            next.turn()
        } else {
            self.turn()
        }
    }

    /// Takes in the response to the outstanding request; `None` says that
    /// the request failed.
    pub fn advance<S: CinemaScraper>(self, scraper: &S, response: Option<String>) -> (next: Crawl)
        ensures
            next@ == advanced(self@, *scraper, opt_view(response)),
    {
        match self.phase {
            Phase::Listing => match response {
                None => Crawl { phase: Phase::Failed, ..self },
                Some(body) => {
                    let candidates = scraper.plan(body.as_str());
                    if scraper.visits_candidates() {
                        let next = Crawl { candidates, index: 0, ..self };
                        next.turn()
                    } else {
                        let mut films = self.films;
                        let mut i: usize = 0;
                        while i < candidates.len()
                            invariant
                                i <= candidates.len(),
                                completed_all(
                                    *scraper,
                                    films_view(candidates@),
                                    i as int,
                                    films_view(films@),
                                ) == completed_all(
                                    *scraper,
                                    films_view(candidates@),
                                    0,
                                    self@.films,
                                ),
                            decreases candidates.len() - i,
                        {
                            let none: Vec<Option<String>> = Vec::new();
                            assert(pages_view(none@) =~= Seq::empty());
                            let film = scraper.complete(&candidates[i], &None, &none);
                            keep(&mut films, film);
                            i += 1;
                        }
                        Crawl { phase: Phase::Done, candidates, films, ..self }
                    }
                },
            },
            Phase::Detail => {
                let inner_urls = match &response {
                    Some(page) => scraper.follow(page.as_str()),
                    None => {
                        let none: Vec<String> = Vec::new();
                        assert(strings_view(none@) =~= Seq::empty());
                        none
                    },
                };
                let follows = inner_urls.len() > 0;
                let inner_pages: Vec<Option<String>> = Vec::new();
                assert(pages_view(inner_pages@) =~= Seq::empty());
                let next = Crawl { page: response, inner_urls, inner_pages, ..self };
                if follows {
                    Crawl { phase: Phase::Inner, ..next }
                } else {
                    next.finish_candidate(scraper)
                }
            },
            Phase::Inner => {
                let ghost before = pages_view(self.inner_pages@);
                let mut inner_pages = self.inner_pages;
                inner_pages.push(response);
                assert(pages_view(inner_pages@) =~= before.push(opt_view(response)));
                let complete = inner_pages.len() >= self.inner_urls.len();
                let next = Crawl { inner_pages, ..self };
                if complete {
                    next.finish_candidate(scraper)
                } else {
                    next
                }
            },
            Phase::Done => self,
            Phase::Failed => self,
        }
    }
}

/// A listing that cannot be fetched fails the run.
pub proof fn lemma_listing_failure_is_fatal<S: CinemaScraper>(s: S)
    ensures
        action_of(advanced(initial(), s, None), s) == ActionView::Fail,
{
}

/// A listing that names no candidate ends the run with no record, not
/// with a failure.
pub proof fn lemma_nothing_scheduled<S: CinemaScraper>(s: S, body: Seq<char>)
    requires
        s.planned(body).len() == 0,
    ensures
        action_of(advanced(initial(), s, Some(body)), s) == ActionView::Finish(Seq::empty()),
{
    let v = advanced(initial(), s, Some(body));
    assert(v.phase == Phase::Done);
    assert(v.films =~= Seq::<FilmView>::empty());
    assert(merged(v.films) =~= Seq::<FilmView>::empty());
}

/// Once the listing has come, no response fails the run: a candidate's
/// page that cannot be fetched costs at most that candidate.
pub proof fn lemma_item_failure_is_survived<S: CinemaScraper>(
    v: CrawlView,
    s: S,
    response: Option<Seq<char>>,
)
    requires
        v.phase != Phase::Listing,
        v.phase != Phase::Failed,
    ensures
        advanced(v, s, response).phase != Phase::Failed,
        advanced(v, s, response).phase != Phase::Listing,
        advanced(v, s, response).films.len() <= v.films.len() + 1,
        forall|i: int|
            0 <= i < v.films.len() ==> advanced(v, s, response).films[i] == v.films[i],
{
}

proof fn lemma_kept_emittable(films: Seq<FilmView>, film: Option<FilmView>)
    requires
        all_emittable(films),
    ensures
        all_emittable(kept(films, film)),
{
    let next = kept(films, film);
    assert forall|i: int| 0 <= i < next.len() implies (#[trigger] next[i]).emittable() by {
        if i < films.len() {
            assert(films[i].emittable());
        }
    }
}

proof fn lemma_completed_all_emittable<S: CinemaScraper>(
    s: S,
    candidates: Seq<FilmView>,
    from: int,
    films: Seq<FilmView>,
)
    requires
        all_emittable(films),
    ensures
        all_emittable(completed_all(s, candidates, from, films)),
    decreases candidates.len() - from,
{
    if 0 <= from < candidates.len() {
        let film = s.completed(candidates[from], None, Seq::empty());
        lemma_kept_emittable(films, film);
        lemma_completed_all_emittable(s, candidates, from + 1, kept(films, film));
    }
}

/// In every state of a run that starts at the initial state, the records
/// completed so far have a title and an address each.
pub proof fn lemma_records_stay_emittable<S: CinemaScraper>(
    v: CrawlView,
    s: S,
    response: Option<Seq<char>>,
)
    requires
        all_emittable(v.films),
    ensures
        all_emittable(initial().films),
        all_emittable(advanced(v, s, response).films),
{
    match v.phase {
        Phase::Listing => match response {
            Some(body) => {
                lemma_completed_all_emittable(s, s.planned(body), 0, v.films);
            },
            None => {},
        },
        Phase::Detail => {
            if v.index < v.candidates.len() {
                lemma_kept_emittable(
                    v.films,
                    s.completed(v.candidates[v.index as int], response, Seq::empty()),
                );
            }
        },
        Phase::Inner => {
            if v.index < v.candidates.len() {
                lemma_kept_emittable(
                    v.films,
                    s.completed(
                        v.candidates[v.index as int],
                        v.page,
                        v.inner_pages.push(response),
                    ),
                );
            }
        },
        Phase::Done => {},
        Phase::Failed => {},
    }
}

/// The records that a run ends with: no two of them share an address,
/// and each has a title and an address where those completed had.
pub proof fn lemma_finished_records<S: CinemaScraper>(v: CrawlView, s: S, films: Seq<FilmView>)
    requires
        action_of(v, s) == ActionView::Finish(films),
    ensures
        distinct_urls(films),
        all_emittable(v.films) ==> all_emittable(films),
{
    lemma_merged_is_clean(v.films);
    if all_emittable(v.films) {
        lemma_merged_emittable(v.films);
    }
}

/// A candidate's page that cannot be fetched costs that candidate and
/// nothing else: no record is added or lost, the candidates stay, and the
/// run turns to the next candidate, or ends where none is left.
pub proof fn lemma_failed_page_is_skipped<S: CinemaScraper>(v: CrawlView, s: S)
    requires
        v.phase == Phase::Detail,
        s.visits(),
    ensures
        advanced(v, s, None).films == v.films,
        advanced(v, s, None).candidates == v.candidates,
        v.index < v.candidates.len() ==> advanced(v, s, None).index == v.index + 1,
        advanced(v, s, None).phase == if v.index + 1 < v.candidates.len() {
            Phase::Detail
        } else {
            Phase::Done
        },
{
    if v.index < v.candidates.len() {
        s.lemma_failed_page_gives_nothing(v.candidates[v.index as int], Seq::empty());
    }
}

} // verus!
