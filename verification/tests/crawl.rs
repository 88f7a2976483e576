use cinema_scrape::cinema_edera::CinemaEderaScraper;
use cinema_scrape::cinema_trieste_scraper::CinemaTriesteScraper;
use cinema_scrape::cinergia_conegliano::CinergiaConeglianoScraper;
use cinema_scrape::crawl::{Action, CinemaScraper, Crawl, Phase, Request};
use cinema_scrape::enrico_pizzuti::EnricoPizzutiScraper;
use cinema_scrape::film::Film;
use cinema_scrape::merge::merge_films;
use cinema_scrape::new_bev::NewBevScraper;
use cinema_scrape::rassegne_edera::RassegneScraperEdera;
use cinema_scrape::space_cinema::SpaceCinemaScraper;

/// Runs a source against canned pages: an address that is not among
/// them fails to fetch. Returns the records, or `None` where the run fails,
/// and the addresses asked for.
fn run<S: CinemaScraper>(scraper: &S, pages: &[(&str, &str)]) -> (Option<Vec<Film>>, Vec<String>) {
    let mut crawl = Crawl::start();
    let mut asked = Vec::new();
    for _ in 0..1000 {
        match crawl.action(scraper) {
            Action::Fetch(request) => {
                let body = pages.iter().find(|(url, _)| *url == request.url).map(|(_, b)| b.to_string());
                asked.push(request.url);
                crawl = crawl.advance(scraper, body);
            }
            Action::Finish(films) => return (Some(films), asked),
            Action::Fail => return (None, asked),
        }
    }
    panic!("the run does not end");
}

const SITE: &str = "https://c.18tickets.it";

fn detail(title: &str, minutes: u32, day: &str, time: &str) -> String {
    format!(
        "<html><body><h1>{}</h1><div>Durata: {} min</div><div>Trama</div><div>Una trama abbastanza lunga per {}.</div><div>{}</div><div>{}</div></body></html>",
        title, minutes, title, day, time
    )
}

#[test]
fn links_to_one_film_give_one_record() {
    let scraper = CinergiaConeglianoScraper::new(SITE.to_string()).on("2026-02-13".to_string());
    let listing = r#"<a href="/film/100">a</a><a href="/film/100?d=2">b</a><a href="/film/200">c</a>"#;
    let first = detail("Cento", 100, "13/02/2026", "17:30");
    let second = detail("Duecento", 90, "14/02/2026", "21:00");
    let pages = [
        (SITE, listing),
        ("https://c.18tickets.it/film/100?ref_date=2026-02-13", first.as_str()),
        ("https://c.18tickets.it/film/200?ref_date=2026-02-13", second.as_str()),
    ];
    let (films, asked) = run(&scraper, &pages);
    let films = films.unwrap();
    assert_eq!(asked.len(), 3);
    assert_eq!(films.len(), 2);
    assert_eq!(films[0].url, "https://c.18tickets.it/film/100?ref_date=2026-02-13");
    assert_eq!(films[0].title, "Cento");
    assert_eq!(films[0].running_time, Some(100));
    assert_eq!(films[0].synopsis, Some("Una trama abbastanza lunga per Cento.".to_string()));
    assert_eq!(films[1].url, "https://c.18tickets.it/film/200?ref_date=2026-02-13");
}

#[test]
fn rows_of_one_film_give_one_record_with_all_showtimes() {
    let row = |url: &str, time: &str| {
        let mut f = Film::bare("Film".to_string(), url.to_string());
        f.showtimes = Some(vec![time.to_string()]);
        f
    };
    let rows = vec![row("/film/100", "lun 17:00"), row("/film/100", "mar 19:00"), row("/film/200", "lun 21:00")];
    let films = merge_films(&rows);
    assert_eq!(films.len(), 2);
    assert_eq!(films[0].url, "/film/100");
    assert_eq!(films[0].showtimes, Some(vec!["lun 17:00".to_string(), "mar 19:00".to_string()]));
    assert_eq!(films[1].url, "/film/200");
}

#[test]
fn a_failed_detail_page_costs_only_its_film() {
    let scraper = CinergiaConeglianoScraper::new(SITE.to_string()).on("d".to_string());
    let listing = r#"<a href="/film/1">a</a><a href="/film/2">b</a><a href="/film/3">c</a>"#;
    let one = detail("Uno", 1, "13/02/2026", "17:30");
    let three = detail("Tre", 3, "13/02/2026", "17:30");
    let pages = [
        (SITE, listing),
        ("https://c.18tickets.it/film/1?ref_date=d", one.as_str()),
        ("https://c.18tickets.it/film/3?ref_date=d", three.as_str()),
    ];
    let (films, asked) = run(&scraper, &pages);
    let films = films.unwrap();
    assert_eq!(asked.len(), 4);
    assert_eq!(films.len(), 2);
    assert_eq!(films[0].title, "Uno");
    assert_eq!(films[1].title, "Tre");
}

#[test]
fn a_listing_without_films_gives_no_record_and_no_failure() {
    let scraper = CinergiaConeglianoScraper::new(SITE.to_string());
    let (films, asked) = run(&scraper, &[(SITE, "<html><body><p>Nothing scheduled.</p></body></html>")]);
    assert_eq!(films.unwrap().len(), 0);
    assert_eq!(asked, vec![SITE.to_string()]);
}

#[test]
fn a_failed_listing_fails_the_run() {
    let scraper = CinergiaConeglianoScraper::new(SITE.to_string());
    let (films, asked) = run(&scraper, &[]);
    assert!(films.is_none());
    assert_eq!(asked.len(), 1);
    let crawl = Crawl::start().advance(&scraper, None);
    assert_eq!(crawl.phase, Phase::Failed);
    let still = crawl.advance(&scraper, Some("late".to_string()));
    assert_eq!(still.phase, Phase::Failed);
}

#[test]
fn a_source_without_detail_pages_ends_with_the_listing() {
    let scraper = SpaceCinemaScraper::new(7, "2026-02-09".to_string());
    let body = r#"{"result": [{"filmTitle": "A", "filmUrl": "u1"}, {"filmTitle": "", "filmUrl": "u2"}, {"filmTitle": "B", "filmUrl": "u1", "cast": "x"}]}"#;
    let address = "https://www.thespacecinema.it/api/microservice/showings/cinemas/7/films";
    let (films, asked) = run(&scraper, &[(address, body)]);
    let films = films.unwrap();
    assert_eq!(asked.len(), 1);
    assert_eq!(films.len(), 1);
    assert_eq!(films[0].title, "A");
    assert_eq!(films[0].cast, Some("x".to_string()));
}

#[test]
fn a_candidate_with_a_title_goes_with_its_failed_page() {
    let scraper = CinemaEderaScraper::new("https://www.cinemaedera.it/week.html".to_string());
    let listing = r#"<table id="timetable"><tbody><tr><td><a class="category__item" href="/film/a.html"><strong>A</strong></a>
<a class="category__item" href="/film/b.html"><strong>B</strong></a><a class="category__item" href="/film/c.html"><strong>C</strong></a></td></tr></tbody></table>"#;
    let b = r#"<p class="movie__time">99 min</p>"#;
    let pages = [
        ("https://www.cinemaedera.it/week.html", listing),
        ("https://www.cinemaedera.it/film/b.html", b),
        ("https://www.cinemaedera.it/film/c.html", ""),
    ];
    let (films, asked) = run(&scraper, &pages);
    let films = films.unwrap();
    assert_eq!(asked.len(), 4);
    assert_eq!(films.len(), 2);
    assert_eq!((films[0].title.as_str(), films[0].running_time), ("B", Some(99)));
    assert_eq!((films[1].title.as_str(), films[1].running_time), ("C", None));
}

#[test]
fn trieste_links_to_one_film_give_one_record() {
    let scraper = CinemaTriesteScraper::new();
    let listing = r#"<a href="/film/100">a</a><a href="/film/100?d=2">b</a><a href="/film/200">c</a>"#;
    let detail = |t: &str| format!("<div id=\"portfolio-single-content\"><h1>{}</h1></div>", t);
    let (one, two) = (detail("Cento"), detail("Duecento"));
    let pages = [
        ("https://www.lacappellaunderground.org/ariston/programma/", listing),
        ("https://www.lacappellaunderground.org/film/100", one.as_str()),
        ("https://www.lacappellaunderground.org/film/200", two.as_str()),
    ];
    let (films, asked) = run(&scraper, &pages);
    let films = films.unwrap();
    assert_eq!(asked.len(), 3);
    assert_eq!(films.len(), 2);
    assert_eq!(films[0].title, "Cento");
    assert_eq!(films[1].title, "Duecento");
}

#[test]
fn a_page_without_title_gives_no_record() {
    let scraper = EnricoPizzutiScraper::new("https://www.enricopizzuti.it/".to_string());
    let listing = r#"<div><h5>Cineforum 2026</h5><a href="/film/a">A</a><a href="/film/b">B</a></div>"#;
    let a = r#"<div class="container film-description"><h1>Alfa</h1></div>"#;
    let b = r#"<div class="container film-description"><div class="film-date">oggi</div></div>"#;
    let pages = [
        ("https://www.enricopizzuti.it/", listing),
        ("https://www.enricopizzuti.it/film/a", a),
        ("https://www.enricopizzuti.it/film/b", b),
    ];
    let (films, asked) = run(&scraper, &pages);
    let films = films.unwrap();
    assert_eq!(asked.len(), 3);
    assert_eq!(films.len(), 1);
    assert_eq!(films[0].title, "Alfa");
}

#[test]
fn a_programme_goes_with_its_failed_page() {
    let scraper = NewBevScraper::new();
    let schedule = r#"<article class="event-card"><a href="/program/a"><h4 class="event-card__title">A</h4></a></article>
<article class="event-card"><a href="/program/b"><h4 class="event-card__title">B</h4></a></article>"#;
    let pages = [("https://thenewbev.com/schedule/", schedule), ("https://thenewbev.com/program/b", "<html></html>")];
    let (films, asked) = run(&scraper, &pages);
    let films = films.unwrap();
    assert_eq!(asked.len(), 3);
    assert_eq!(films.len(), 1);
    assert_eq!(films[0].title, "B");
}

#[test]
fn pages_that_a_series_links_to_are_fetched_too() {
    let scraper = RassegneScraperEdera::new("https://www.cinemaedera.it/rassegne.html".to_string());
    let listing = r#"<a href="/rassegne/s1.html">S1</a><a href="/rassegne/s2.html">S2</a>"#;
    let s1 = r#"<h1>Serie Uno</h1><a href="/i-film/x.html">X</a><a href="/i-film/y.html">Y</a>"#;
    let s2 = r#"<h1>Serie Due</h1>"#;
    let x = r#"<h1>Film X</h1><div class="movie__images"><img class="img-responsive" src="/x.jpg"></div>"#;
    let pages = [
        ("https://www.cinemaedera.it/rassegne.html", listing),
        ("https://www.cinemaedera.it/rassegne/s1.html", s1),
        ("https://www.cinemaedera.it/rassegne/s2.html", s2),
        ("https://www.cinemaedera.it/i-film/x.html", x),
    ];
    let (films, asked) = run(&scraper, &pages);
    let films = films.unwrap();
    assert_eq!(
        asked,
        vec![
            "https://www.cinemaedera.it/rassegne.html".to_string(),
            "https://www.cinemaedera.it/rassegne/s1.html".to_string(),
            "https://www.cinemaedera.it/i-film/x.html".to_string(),
            "https://www.cinemaedera.it/i-film/y.html".to_string(),
            "https://www.cinemaedera.it/rassegne/s2.html".to_string(),
        ]
    );
    assert_eq!(films.len(), 2);
    assert_eq!(films[0].title, "Serie Uno");
    assert_eq!(films[0].poster_url, Some("https://www.cinemaedera.it/x.jpg".to_string()));
    assert_eq!(films[0].synopsis, Some("Cinema: Cinema Edera\n\nI film della rassegna:\n\n* Film X".to_string()));
    assert_eq!(films[1].title, "Serie Due");
    assert_eq!(films[1].synopsis, Some("Cinema: Cinema Edera".to_string()));
}

#[test]
fn plain_requests_carry_the_browser_user_agent() {
    let r = Request::get("https://x/".to_string());
    assert_eq!(r.url, "https://x/");
    assert_eq!(
        r.user_agent,
        "Mozilla/5.0 (Windows NT 10.0; Win64; x64) AppleWebKit/537.36 (KHTML, like Gecko) Chrome/143.0.0.0 Safari/537.36"
    );
    assert_eq!(r.accept, None);
    assert_eq!(r.query.len(), 0);
}
