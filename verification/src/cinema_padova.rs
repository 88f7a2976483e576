//! Cinema Rex, Padova: the programme comes as one JSON document.

use crate::calendar::{moment_of, utc_moment, Moment};
use crate::crawl::{CinemaScraper, Request, RequestView};
use crate::film::{
    films_view, list_if_any, strings_view, text_if_any, text_if_some, Film, FilmView,
};
use crate::json::{
    i64_at, items_or_none, json_i64, json_items_or_none, json_string_or_empty, text_or_empty,
};
use crate::merge::{distinct, distinct_strings};
use crate::number::{decimal2, parse_u32, parsed_u32, u32_to_text2};
use crate::text::{
    chars_of, concat, digit, is_digit, lowercase, push_text, same, string_of, strings_of,
    to_lowercase, trim, trimmed, views,
};
use vstd::prelude::*;

verus! {

/// The source of Cinema Rex's programme.
#[derive(Debug, Clone)]
pub struct FeedPadovaScraper {
    pub url: String,
}

impl FeedPadovaScraper {
    /// A source for the programme; the address of the programme page is kept for reference.
    pub fn new(url: String) -> (scraper: Self)
        ensures
            scraper.url@ == url@,
    {
        FeedPadovaScraper { url }
    }
}

/// The address below which the events stand.
pub open spec fn events_address() -> Seq<char> {
    "https://www.cinemarex.it/programmazione/evento?eventName="@
}

/// A character of an event's name in an address: itself where it is an
/// ASCII letter or digit, else an underscore.
pub open spec fn slug_char(c: char) -> char {
    if digit(c) || ('a' <= c && c <= 'z') || ('A' <= c && c <= 'Z') {
        c
    } else {
        '_'
    }
}

/// The name of an event in its address, given its title in lower case:
/// an underscore stands for every character that is no ASCII letter or digit.
pub open spec fn slug_of_lowered(low: Seq<char>) -> Seq<char> {
    Seq::new(low.len(), |i: int| slug_char(low[i]))
}

/// The name of an event in its address: the title in lower case, with an
/// underscore for every character that is no ASCII letter or digit.
pub open spec fn slug_of(title: Seq<char>) -> Seq<char> {
    slug_of_lowered(lowercase(title))
}

/// The name of an event in its address, given its title in lower case.
pub fn slug_lowered(low: &Vec<char>) -> (out: Vec<char>)
    ensures
        out@ == slug_of_lowered(low@),
{
    let mut out: Vec<char> = Vec::new();
    let mut i: usize = 0;
    while i < low.len()
        invariant
            i <= low.len(),
            out@.len() == i,
            forall|j: int| 0 <= j < i ==> #[trigger] out@[j] == slug_char(low@[j]),
        decreases low.len() - i,
    {
        let c = low[i];
        if is_digit(c) || ('a' <= c && c <= 'z') || ('A' <= c && c <= 'Z') {
            out.push(c);
        } else {
            out.push('_');
        }
        i += 1;
    }
    assert(out@ =~= slug_of_lowered(low@));
    out
}

fn slug_chars(title: &Vec<char>) -> (out: Vec<char>)
    ensures
        out@ == slug_of(title@),
{
    slug_lowered(&to_lowercase(title))
}

/// The name of an event in its address.
pub fn event_name_slug(titolo: &str) -> (slug: String)
    ensures
        slug@ == slug_of(titolo@),
{
    string_of(&slug_chars(&chars_of(titolo)))
}

/// The Italian name of a day of the week, counted from Monday as 0;
/// empty for any other number.
pub open spec fn weekday_name(d: u32) -> Seq<char> {
    if d == 0 {
        "luned\u{ec}"@
    } else if d == 1 {
        "marted\u{ec}"@
    } else if d == 2 {
        "mercoled\u{ec}"@
    } else if d == 3 {
        "gioved\u{ec}"@
    } else if d == 4 {
        "venerd\u{ec}"@
    } else if d == 5 {
        "sabato"@
    } else if d == 6 {
        "domenica"@
    } else {
        Seq::empty()
    }
}

/// The phrase of a moment: day of the week, day and month, and time.
pub open spec fn moment_phrase(m: Moment) -> Seq<char> {
    weekday_name(m.weekday) + " "@ + decimal2(m.day as nat) + "/"@ + decimal2(m.month as nat)
        + " ore "@ + decimal2(m.hour as nat) + ":"@ + decimal2(m.minute as nat)
}

/// The phrase of an event: that of the moment at which it starts, in UTC.
pub open spec fn event_phrase(event: Seq<char>) -> Option<Seq<char>> {
    match json_i64(event, "/inizio"@) {
        Some(ms) => match utc_moment(ms) {
            Some(m) => Some(moment_phrase(m)),
            None => None,
        },
        None => None,
    }
}

/// The phrases of a list of events, in order.
pub open spec fn event_phrases(events: Seq<Seq<char>>) -> Seq<Seq<char>>
    decreases events.len(),
{
    if events.len() == 0 {
        Seq::empty()
    } else {
        match event_phrase(events.last()) {
            Some(p) => event_phrases(events.drop_last()).push(p),
            None => event_phrases(events.drop_last()),
        }
    }
}

/// The record of an entry of the programme; none where the entry is no
/// film or has no title.
pub open spec fn film_of(item: Seq<char>) -> Option<FilmView> {
    let title = trimmed(json_string_or_empty(item, "/titolo"@));
    let author = trimmed(json_string_or_empty(item, "/autore"@));
    if json_string_or_empty(item, "/categoria_film"@) == "y"@ && title.len() > 0 {
        Some(
            FilmView {
                title,
                url: events_address() + slug_of(title),
                poster_url: None,
                cast: if author.len() > 0 {
                    Some("Regia: "@ + author)
                } else {
                    None
                },
                release_date: None,
                running_time: parsed_u32(trimmed(json_string_or_empty(item, "/durata"@))),
                synopsis: text_if_any(trimmed(json_string_or_empty(item, "/descrizione"@))),
                showtimes: list_if_any(
                    distinct(event_phrases(json_items_or_none(item, "/eventi"@))),
                ),
            },
        )
    } else {
        None
    }
}

/// The records of a list of entries, in order.
pub open spec fn films_of(items: Seq<Seq<char>>) -> Seq<FilmView>
    decreases items.len(),
{
    if items.len() == 0 {
        Seq::empty()
    } else {
        match film_of(items.last()) {
            Some(f) => films_of(items.drop_last()).push(f),
            None => films_of(items.drop_last()),
        }
    }
}

fn weekday_text(d: u32) -> (out: Vec<char>)
    ensures
        out@ == weekday_name(d),
{
    if d == 0 {
        chars_of("luned\u{ec}")
    } else if d == 1 {
        chars_of("marted\u{ec}")
    } else if d == 2 {
        chars_of("mercoled\u{ec}")
    } else if d == 3 {
        chars_of("gioved\u{ec}")
    } else if d == 4 {
        chars_of("venerd\u{ec}")
    } else if d == 5 {
        chars_of("sabato")
    } else if d == 6 {
        chars_of("domenica")
    } else {
        Vec::new()
    }
}

/// The phrase of a moment.
pub fn format_showtime(m: &Moment) -> (out: Vec<char>)
    ensures
        out@ == moment_phrase(*m),
{
    let a = concat(&concat(&weekday_text(m.weekday), &chars_of(" ")), &u32_to_text2(m.day));
    let b = concat(&concat(&a, &chars_of("/")), &u32_to_text2(m.month));
    let c = concat(&concat(&b, &chars_of(" ore ")), &u32_to_text2(m.hour));
    concat(&concat(&c, &chars_of(":")), &u32_to_text2(m.minute))
}

fn read_events(events: &Vec<String>) -> (out: Vec<Vec<char>>)
    ensures
        views(out@) == event_phrases(strings_view(events@)),
{
    let mut out: Vec<Vec<char>> = Vec::new();
    let mut i: usize = 0;
    assert(views(out@) =~= event_phrases(strings_view(events@).take(0)));
    while i < events.len()
        invariant
            i <= events.len(),
            views(out@) == event_phrases(strings_view(events@).take(i as int)),
        decreases events.len() - i,
    {
        proof {
            assert(strings_view(events@).take(i + 1).drop_last() == strings_view(events@).take(
                i as int,
            ));
            assert(strings_view(events@).take(i + 1).last() == events@[i as int]@);
        }
        match i64_at(events[i].as_str(), "/inizio") {
            Some(ms) => match moment_of(ms) {
                Some(m) => {
                    push_text(&mut out, format_showtime(&m));
                },
                None => {},
            },
            None => {},
        }
        i += 1;
    }
    proof {
        assert(strings_view(events@).take(events.len() as int) == strings_view(events@));
    }
    out
}

fn read_film(item: &str) -> (r: Option<Film>)
    ensures
        match r {
            Some(f) => film_of(item@) == Some(f@),
            None => film_of(item@) is None,
        },
{
    let title = trim(&text_or_empty(item, "/titolo"));
    if !same(&text_or_empty(item, "/categoria_film"), &chars_of("y")) || title.len() == 0 {
        return None;
    }
    let author = trim(&text_or_empty(item, "/autore"));
    let phrases = strings_of(&read_events(&items_or_none(item, "/eventi")));
    assert(strings_view(phrases@) =~= event_phrases(json_items_or_none(item@, "/eventi"@)));
    let times = distinct_strings(&phrases);
    let showtimes = if times.len() == 0 {
        None
    } else {
        Some(times)
    };
    Some(
        Film {
            title: string_of(&title),
            url: string_of(
                &concat(
                    &chars_of("https://www.cinemarex.it/programmazione/evento?eventName="),
                    &slug_chars(&title),
                ),
            ),
            poster_url: None,
            cast: if author.len() > 0 {
                Some(string_of(&concat(&chars_of("Regia: "), &author)))
            } else {
                None
            },
            release_date: None,
            running_time: parse_u32(&trim(&text_or_empty(item, "/durata"))),
            synopsis: text_if_some(&trim(&text_or_empty(item, "/descrizione"))),
            showtimes,
        },
    )
}

/// The records that the programme holds.
pub fn read_films(body: &str) -> (out: Vec<Film>)
    ensures
        films_view(out@) == films_of(json_items_or_none(body@, "/titoli"@)),
{
    let items = items_or_none(body, "/titoli");
    let mut out: Vec<Film> = Vec::new();
    let mut i: usize = 0;
    assert(films_view(out@) =~= films_of(strings_view(items@).take(0)));
    while i < items.len()
        invariant
            i <= items.len(),
            films_view(out@) == films_of(strings_view(items@).take(i as int)),
        decreases items.len() - i,
    {
        proof {
            assert(strings_view(items@).take(i + 1).drop_last() == strings_view(items@).take(
                i as int,
            ));
            assert(strings_view(items@).take(i + 1).last() == items@[i as int]@);
        }
        match read_film(items[i].as_str()) {
            Some(f) => {
                let ghost before = films_view(out@);
                out.push(f);
                assert(films_view(out@) =~= before.push(f@));
            },
            None => {},
        }
        i += 1;
    }
    proof {
        assert(strings_view(items@).take(items.len() as int) == strings_view(items@));
    }
    out
}

impl CinemaScraper for FeedPadovaScraper {
    open spec fn listing_request(&self) -> RequestView {
        RequestView::get("https://www.cinemarex.it/pages/rexJsonCompact.php"@)
    }

    open spec fn planned(&self, body: Seq<char>) -> Seq<FilmView> {
        films_of(json_items_or_none(body, "/titoli"@))
    }

    open spec fn visits(&self) -> bool {
        false
    }

    open spec fn followed(&self, page: Seq<char>) -> Seq<Seq<char>> {
        Seq::empty()
    }

    open spec fn completed(
        &self,
        candidate: FilmView,
        page: Option<Seq<char>>,
        inner: Seq<Option<Seq<char>>>,
    ) -> Option<FilmView> {
        Some(candidate)
    }

    open spec fn feed_path(&self) -> Seq<char> {
        "feed_padova.xml"@
    }

    open spec fn warm_up_request(&self) -> Option<RequestView> {
        None
    }

    fn listing(&self) -> (r: Request) {
        Request::get("https://www.cinemarex.it/pages/rexJsonCompact.php".to_owned())
    }

    fn plan(&self, body: &str) -> (out: Vec<Film>) {
        read_films(body)
    }

    fn visits_candidates(&self) -> (b: bool) {
        false
    }

    fn follow(&self, page: &str) -> (urls: Vec<String>) {
        let urls: Vec<String> = Vec::new();
        assert(strings_view(urls@) =~= Seq::<Seq<char>>::empty());
        urls
    }

    fn complete(&self, candidate: &Film, page: &Option<String>, inner: &Vec<Option<String>>) -> (r:
        Option<Film>) {
        Some(candidate.duplicate())
    }

    fn rss_filename(&self) -> (name: String) {
        "feed_padova.xml".to_owned()
    }

    fn warm_up(&self) -> (r: Option<Request>) {
        None
    }

    proof fn lemma_failed_page_gives_nothing(
        &self,
        candidate: FilmView,
        inner: Seq<Option<Seq<char>>>,
    ) {
    }
}

} // verus!
