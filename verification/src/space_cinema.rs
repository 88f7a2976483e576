//! The Space Cinema: the films of one cinema on one day, from the chain's
//! JSON interface.

use crate::crawl::{user_agent, CinemaScraper, Request, RequestView};
use crate::film::{films_view, list_if_any, list_if_some, strings_view, Film, FilmView};
use crate::json::{
    filled_at, i64_at, items_or_none, json_filled, json_i64, json_items_or_none,
    json_string_or_empty, text_or_empty,
};
use crate::number::{decimal, parse_u32, parsed_u32, u32_to_text};
use crate::text::{chars_of, concat, copy, slice, string_of, views};
use crate::tokens::{fields, split};
use vstd::prelude::*;

verus! {

/// The source of one Space Cinema's day.
#[derive(Debug, Clone)]
pub struct SpaceCinemaScraper {
    pub cinema_id: u32,
    /// The day asked for, as the interface takes it.
    pub showing_date: String,
}

impl SpaceCinemaScraper {
    /// A source for the given cinema and day.
    pub fn new(cinema_id: u32, showing_date: String) -> (scraper: Self)
        ensures
            scraper.cinema_id == cinema_id,
            scraper.showing_date@ == showing_date@,
    {
        SpaceCinemaScraper { cinema_id, showing_date }
    }
}

/// The time of day of a moment written as `2026-02-09T22:45:00`: the
/// five characters behind the `T`; the whole text where it has no such part.
pub open spec fn time_part(s: Seq<char>) -> Seq<char> {
    if fields(s, 'T').len() >= 2 && fields(s, 'T')[1].len() >= 5 {
        fields(s, 'T')[1].take(5)
    } else {
        s
    }
}

/// The Italian name of a month, counted from 1.
pub open spec fn month_name(m: int) -> Seq<char> {
    if m == 1 {
        "Gennaio"@
    } else if m == 2 {
        "Febbraio"@
    } else if m == 3 {
        "Marzo"@
    } else if m == 4 {
        "Aprile"@
    } else if m == 5 {
        "Maggio"@
    } else if m == 6 {
        "Giugno"@
    } else if m == 7 {
        "Luglio"@
    } else if m == 8 {
        "Agosto"@
    } else if m == 9 {
        "Settembre"@
    } else if m == 10 {
        "Ottobre"@
    } else if m == 11 {
        "Novembre"@
    } else {
        "Dicembre"@
    }
}

/// The first ten characters of a moment: its date.
pub open spec fn date_text(s: Seq<char>) -> Seq<char> {
    if s.len() >= 10 {
        s.take(10)
    } else {
        Seq::empty()
    }
}

/// The number of the month of a date written as `2026-02-09`; 0 where
/// it is none.
pub open spec fn month_of(parts: Seq<Seq<char>>) -> int {
    match parsed_u32(parts[1]) {
        Some(m) => m as int,
        None => 0,
    }
}

/// The date of a moment in Italian, `09 Febbraio 2026` for
/// `2026-02-09T22:45:00`; the text itself where it does not start with a date.
pub open spec fn italian_date(s: Seq<char>) -> Seq<char> {
    let parts = fields(date_text(s), '-');
    if parts.len() == 3 && 1 <= month_of(parts) <= 12 {
        parts[2] + " "@ + month_name(month_of(parts)) + " "@ + parts[0]
    } else {
        s
    }
}

/// The phrase of a session: its day, and when it starts and ends.
pub open spec fn session_phrase(session: Seq<char>) -> Seq<char> {
    let start = json_string_or_empty(session, "/startTime"@);
    let end = json_string_or_empty(session, "/endTime"@);
    italian_date(start) + " ore "@ + time_part(start) + " - "@ + time_part(end)
}

/// The phrases of a list of sessions.
pub open spec fn session_phrases(sessions: Seq<Seq<char>>) -> Seq<Seq<char>> {
    Seq::new(sessions.len(), |i: int| session_phrase(sessions[i]))
}

/// The phrases of the sessions of the groups `groups`, group after group.
pub open spec fn group_phrases(groups: Seq<Seq<char>>) -> Seq<Seq<char>>
    decreases groups.len(),
{
    if groups.len() == 0 {
        Seq::empty()
    } else {
        group_phrases(groups.drop_last()) + session_phrases(
            json_items_or_none(groups.last(), "/sessions"@),
        )
    }
}

/// The running time that an entry gives, where it is a number of
/// minutes that a `u32` holds.
pub open spec fn minutes_of(item: Seq<char>) -> Option<u32> {
    match json_i64(item, "/runningTime"@) {
        Some(n) => if 0 <= n <= u32::MAX {
            Some(n as u32)
        } else {
            None
        },
        None => None,
    }
}

/// The record of an entry of the interface's answer; none where the
/// entry has no title or no address. A text that is empty counts as absent.
pub open spec fn film_of(item: Seq<char>) -> Option<FilmView> {
    match (json_filled(item, "/filmTitle"@), json_filled(item, "/filmUrl"@)) {
        (Some(title), Some(url)) => Some(
            FilmView {
                title,
                url,
                poster_url: json_filled(item, "/posterImageSrc"@),
                cast: json_filled(item, "/cast"@),
                release_date: json_filled(item, "/releaseDate"@),
                running_time: minutes_of(item),
                synopsis: json_filled(item, "/synopsisShort"@),
                showtimes: list_if_any(
                    group_phrases(json_items_or_none(item, "/showingGroups"@)),
                ),
            },
        ),
        _ => None,
    }
}

/// The records of a list of entries, in order.
pub open spec fn films_of(items: Seq<Seq<char>>) -> Seq<FilmView>
    decreases items.len(),
{
    if items.len() == 0 {
        Seq::empty()
    } else {
        match film_of(items.last()) {
            Some(f) => films_of(items.drop_last()).push(f),
            None => films_of(items.drop_last()),
        }
    }
}

fn read_time_part(s: &Vec<char>) -> (out: Vec<char>)
    ensures
        out@ == time_part(s@),
{
    let parts = split(s, 'T');
    if parts.len() >= 2 && parts[1].len() >= 5 {
        assert(views(parts@)[1] == parts@[1]@);
        slice(&parts[1], 0, 5)
    } else {
        copy(s)
    }
}

fn month_text(m: u32) -> (out: Vec<char>)
    ensures
        out@ == month_name(m as int),
{
    if m == 1 {
        chars_of("Gennaio")
    } else if m == 2 {
        chars_of("Febbraio")
    } else if m == 3 {
        chars_of("Marzo")
    } else if m == 4 {
        chars_of("Aprile")
    } else if m == 5 {
        chars_of("Maggio")
    } else if m == 6 {
        chars_of("Giugno")
    } else if m == 7 {
        chars_of("Luglio")
    } else if m == 8 {
        chars_of("Agosto")
    } else if m == 9 {
        chars_of("Settembre")
    } else if m == 10 {
        chars_of("Ottobre")
    } else if m == 11 {
        chars_of("Novembre")
    } else {
        chars_of("Dicembre")
    }
}

/// The date of a moment in Italian.
pub fn format_date_italian(s: &Vec<char>) -> (out: Vec<char>)
    ensures
        out@ == italian_date(s@),
{
    let date = if s.len() >= 10 {
        slice(s, 0, 10)
    } else {
        Vec::new()
    };
    let parts = split(&date, '-');
    if parts.len() != 3 {
        return copy(s);
    }
    assert(views(parts@)[0] == parts@[0]@);
    assert(views(parts@)[1] == parts@[1]@);
    assert(views(parts@)[2] == parts@[2]@);
    let month = match parse_u32(&parts[1]) {
        Some(m) => m,
        None => 0,
    };
    if month == 0 || month > 12 {
        return copy(s);
    }
    let space = chars_of(" ");
    let head = concat(&concat(&parts[2], &space), &month_text(month));
    concat(&concat(&head, &space), &parts[0])
}

fn read_session(session: &str) -> (out: Vec<char>)
    ensures
        out@ == session_phrase(session@),
{
    let start = text_or_empty(session, "/startTime");
    let end = text_or_empty(session, "/endTime");
    let a = concat(&concat(&format_date_italian(&start), &chars_of(" ore ")), &read_time_part(&start));
    concat(&concat(&a, &chars_of(" - ")), &read_time_part(&end))
}

fn read_sessions(sessions: &Vec<String>) -> (out: Vec<Vec<char>>)
    ensures
        views(out@) == session_phrases(strings_view(sessions@)),
{
    let mut out: Vec<Vec<char>> = Vec::new();
    let mut i: usize = 0;
    while i < sessions.len()
        invariant
            i <= sessions.len(),
            out@.len() == i,
            forall|j: int| 0 <= j < i ==> (#[trigger] out@[j])@ == session_phrase(sessions@[j]@),
        decreases sessions.len() - i,
    {
        out.push(read_session(sessions[i].as_str()));
        i += 1;
    }
    assert(views(out@) =~= session_phrases(strings_view(sessions@)));
    out
}

fn read_groups(groups: &Vec<String>) -> (out: Vec<Vec<char>>)
    ensures
        views(out@) == group_phrases(strings_view(groups@)),
{
    let mut out: Vec<Vec<char>> = Vec::new();
    let mut k: usize = 0;
    assert(views(out@) =~= group_phrases(strings_view(groups@).take(0)));
    while k < groups.len()
        invariant
            k <= groups.len(),
            views(out@) == group_phrases(strings_view(groups@).take(k as int)),
        decreases groups.len() - k,
    {
        proof {
            assert(strings_view(groups@).take(k + 1).drop_last() == strings_view(groups@).take(
                k as int,
            ));
            assert(strings_view(groups@).take(k + 1).last() == groups@[k as int]@);
        }
        let ghost before = views(out@);
        let mut more = read_sessions(&items_or_none(groups[k].as_str(), "/sessions"));
        let ghost added = views(more@);
        out.append(&mut more);
        assert(views(out@) =~= before + added);
        k += 1;
    }
    proof {
        assert(strings_view(groups@).take(groups.len() as int) == strings_view(groups@));
    }
    out
}

fn read_film(item: &str) -> (r: Option<Film>)
    ensures
        match r {
            Some(f) => film_of(item@) == Some(f@),
            None => film_of(item@) is None,
        },
{
    let title = match filled_at(item, "/filmTitle") {
        Some(t) => t,
        None => {
            return None;
        },
    };
    let url = match filled_at(item, "/filmUrl") {
        Some(u) => u,
        None => {
            return None;
        },
    };
    let running_time = match i64_at(item, "/runningTime") {
        Some(n) => if 0 <= n && n <= 0xFFFF_FFFF {
            Some(n as u32)
        } else {
            None
        },
        None => None,
    };
    Some(
        Film {
            title,
            url,
            poster_url: filled_at(item, "/posterImageSrc"),
            cast: filled_at(item, "/cast"),
            release_date: filled_at(item, "/releaseDate"),
            running_time,
            synopsis: filled_at(item, "/synopsisShort"),
            showtimes: list_if_some(&read_groups(&items_or_none(item, "/showingGroups"))),
        },
    )
}

/// The records that the interface's answer holds.
pub fn read_films(body: &str) -> (out: Vec<Film>)
    ensures
        films_view(out@) == films_of(json_items_or_none(body@, "/result"@)),
{
    let items = items_or_none(body, "/result");
    let mut out: Vec<Film> = Vec::new();
    let mut i: usize = 0;
    assert(films_view(out@) =~= films_of(strings_view(items@).take(0)));
    while i < items.len()
        invariant
            i <= items.len(),
            films_view(out@) == films_of(strings_view(items@).take(i as int)),
        decreases items.len() - i,
    {
        proof {
            assert(strings_view(items@).take(i + 1).drop_last() == strings_view(items@).take(
                i as int,
            ));
            assert(strings_view(items@).take(i + 1).last() == items@[i as int]@);
        }
        match read_film(items[i].as_str()) {
            Some(f) => {
                let ghost before = films_view(out@);
                out.push(f);
                assert(films_view(out@) =~= before.push(f@));
            },
            None => {},
        }
        i += 1;
    }
    proof {
        assert(strings_view(items@).take(items.len() as int) == strings_view(items@));
    }
    out
}

/// The address of the interface for a cinema.
pub open spec fn films_address(cinema_id: u32) -> Seq<char> {
    "https://www.thespacecinema.it/api/microservice/showings/cinemas/"@ + decimal(
        cinema_id as nat,
    ) + "/films"@
}

impl CinemaScraper for SpaceCinemaScraper {
    open spec fn listing_request(&self) -> RequestView {
        RequestView {
            url: films_address(self.cinema_id),
            user_agent: user_agent(),
            accept: Some("application/json,text/javascript,*/*;q=0.1"@),
            query: seq![
                ("showingDate"@, self.showing_date@),
                ("minEmbargoLevel"@, "3"@),
                ("includesSession"@, "true"@),
                ("includeSessionAttributes"@, "true"@),
            ],
        }
    }

    open spec fn planned(&self, body: Seq<char>) -> Seq<FilmView> {
        films_of(json_items_or_none(body, "/result"@))
    }

    open spec fn visits(&self) -> bool {
        false
    }

    open spec fn followed(&self, page: Seq<char>) -> Seq<Seq<char>> {
        Seq::empty()
    }

    open spec fn completed(
        &self,
        candidate: FilmView,
        page: Option<Seq<char>>,
        inner: Seq<Option<Seq<char>>>,
    ) -> Option<FilmView> {
        Some(candidate)
    }

    open spec fn feed_path(&self) -> Seq<char> {
        "space_cinema_"@ + decimal(self.cinema_id as nat) + ".xml"@
    }

    open spec fn warm_up_request(&self) -> Option<RequestView> {
        Some(RequestView::get("https://www.thespacecinema.it/"@))
    }

    fn listing(&self) -> (r: Request) {
        let address = concat(
            &concat(
                &chars_of("https://www.thespacecinema.it/api/microservice/showings/cinemas/"),
                &u32_to_text(self.cinema_id),
            ),
            &chars_of("/films"),
        );
        let mut r = Request::get(string_of(&address));
        r.accept = Some("application/json,text/javascript,*/*;q=0.1".to_owned());
        let mut query: Vec<(String, String)> = Vec::new();
        query.push(("showingDate".to_owned(), self.showing_date.clone()));
        query.push(("minEmbargoLevel".to_owned(), "3".to_owned()));
        query.push(("includesSession".to_owned(), "true".to_owned()));
        query.push(("includeSessionAttributes".to_owned(), "true".to_owned()));
        r.query = query;
        assert(r@.query =~= self.listing_request().query);
        r
    }

    fn plan(&self, body: &str) -> (out: Vec<Film>) {
        read_films(body)
    }

    fn visits_candidates(&self) -> (b: bool) {
        false
    }

    fn follow(&self, page: &str) -> (urls: Vec<String>) {
        let urls: Vec<String> = Vec::new();
        assert(strings_view(urls@) =~= Seq::<Seq<char>>::empty());
        urls
    }

    fn complete(&self, candidate: &Film, page: &Option<String>, inner: &Vec<Option<String>>) -> (r:
        Option<Film>) {
        Some(candidate.duplicate())
    }

    fn rss_filename(&self) -> (name: String) {
        string_of(
            &concat(
                &concat(&chars_of("space_cinema_"), &u32_to_text(self.cinema_id)),
                &chars_of(".xml"),
            ),
        )
    }

    fn warm_up(&self) -> (r: Option<Request>) {
        Some(Request::get("https://www.thespacecinema.it/".to_owned()))
    }

    proof fn lemma_failed_page_gives_nothing(
        &self,
        candidate: FilmView,
        inner: Seq<Option<Seq<char>>>,
    ) {
    }
}

} // verus!
