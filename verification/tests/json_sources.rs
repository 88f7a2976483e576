use cinema_scrape::calendar::Moment;
use cinema_scrape::cinema_padova::{event_name_slug, format_showtime, read_films as padova_films, FeedPadovaScraper};
use cinema_scrape::crawl::CinemaScraper;
use cinema_scrape::space_cinema::{format_date_italian, read_films as space_films, SpaceCinemaScraper};

fn c(s: &str) -> Vec<char> {
    s.chars().collect()
}

fn t(v: &Vec<char>) -> String {
    v.iter().collect()
}

#[test]
fn padova_event_names_become_slugs() {
    assert_eq!(event_name_slug("La Grazia"), "la_grazia");
    assert_eq!(event_name_slug("Città  d'Oro 2!"), "citt___d_oro_2_");
    assert_eq!(event_name_slug(""), "");
}

#[test]
fn padova_showtimes_are_formatted() {
    let m = Moment { weekday: 4, day: 13, month: 2, hour: 7, minute: 5 };
    assert_eq!(t(&format_showtime(&m)), "venerdì 13/02 ore 07:05");
    let odd = Moment { weekday: 9, day: 1, month: 12, hour: 23, minute: 59 };
    assert_eq!(t(&format_showtime(&odd)), " 01/12 ore 23:59");
}

#[test]
fn padova_programme_gives_its_films() {
    let body = r#"{"titoli": [
 {"titolo": "  La Grazia ", "autore": " Paolo Sorrentino ", "durata": " 133 ", "descrizione": " Una storia. ", "categoria_film": "y",
  "eventi": [{"inizio": 1770998400000}, {"inizio": 1770998400000}, {"inizio": 1771102800000}, {"inizio": "x"}]},
 {"titolo": "Concerto", "categoria_film": "n", "eventi": []},
 {"titolo": "   ", "categoria_film": "y", "eventi": []},
 {"titolo": "Senza Eventi", "categoria_film": "y", "durata": "n/a"}
]}"#;
    let films = padova_films(body);
    assert_eq!(films.len(), 2);
    assert_eq!(films[0].title, "La Grazia");
    assert_eq!(films[0].url, "https://www.cinemarex.it/programmazione/evento?eventName=la_grazia");
    assert_eq!(films[0].cast, Some("Regia: Paolo Sorrentino".to_string()));
    assert_eq!(films[0].running_time, Some(133));
    assert_eq!(films[0].synopsis, Some("Una storia.".to_string()));
    assert_eq!(films[0].showtimes, Some(vec!["venerdì 13/02 ore 16:00".to_string(), "sabato 14/02 ore 21:00".to_string()]));
    assert_eq!(films[1].title, "Senza Eventi");
    assert_eq!(films[1].showtimes, None);
    assert_eq!(films[1].running_time, None);
    assert_eq!(films[1].cast, None);
    assert_eq!(padova_films("not json").len(), 0);
    assert_eq!(padova_films("{}").len(), 0);
    let scraper = FeedPadovaScraper::new("https://www.cinemarex.it/programmazione".to_string());
    assert_eq!(scraper.rss_filename(), "feed_padova.xml");
    assert_eq!(scraper.listing().url, "https://www.cinemarex.it/pages/rexJsonCompact.php");
    assert!(!scraper.visits_candidates());
}

#[test]
fn space_dates_are_written_in_italian() {
    assert_eq!(t(&format_date_italian(&c("2026-02-09T22:45:00"))), "09 Febbraio 2026");
    assert_eq!(t(&format_date_italian(&c("2026-12-31"))), "31 Dicembre 2026");
    assert_eq!(t(&format_date_italian(&c("2026-13-01T00:00:00"))), "2026-13-01T00:00:00");
    assert_eq!(t(&format_date_italian(&c("2026-00-01T00:00:00"))), "2026-00-01T00:00:00");
    assert_eq!(t(&format_date_italian(&c("2026/02/09"))), "2026/02/09");
    assert_eq!(t(&format_date_italian(&c("today"))), "today");
}

#[test]
fn space_answer_gives_its_films() {
    let body = r#"{"result": [
 {"filmTitle": "Dune", "filmUrl": "https://www.thespacecinema.it/film/dune", "posterImageSrc": "https://img/dune.jpg",
  "cast": "T. Chalamet", "releaseDate": "2026-02-05", "runningTime": 155, "synopsisShort": "Sand.",
  "showingGroups": [{"sessions": [{"startTime": "2026-02-09T17:15:00", "endTime": "2026-02-09T20:05:00"}]}, {},
                    {"sessions": [{"startTime": "2026-02-10T2", "endTime": "late"}]}]},
 {"filmTitle": "No address"},
 {"filmTitle": "Bare", "filmUrl": "u", "runningTime": -5, "showingGroups": [], "cast": "", "synopsisShort": "", "posterImageSrc": "", "releaseDate": ""}
]}"#;
    let films = space_films(body);
    assert_eq!(films.len(), 2);
    assert_eq!(films[0].title, "Dune");
    assert_eq!(films[0].url, "https://www.thespacecinema.it/film/dune");
    assert_eq!(films[0].poster_url, Some("https://img/dune.jpg".to_string()));
    assert_eq!(films[0].cast, Some("T. Chalamet".to_string()));
    assert_eq!(films[0].release_date, Some("2026-02-05".to_string()));
    assert_eq!(films[0].running_time, Some(155));
    assert_eq!(films[0].synopsis, Some("Sand.".to_string()));
    assert_eq!(
        films[0].showtimes,
        Some(vec!["09 Febbraio 2026 ore 17:15 - 20:05".to_string(), "10 Febbraio 2026 ore 2026-02-10T2 - late".to_string()])
    );
    assert_eq!(films[1].title, "Bare");
    assert_eq!(films[1].cast, None);
    assert_eq!(films[1].synopsis, None);
    assert_eq!(films[1].poster_url, None);
    assert_eq!(films[1].release_date, None);
    assert_eq!(films[1].running_time, None);
    assert_eq!(films[1].showtimes, None);
    assert_eq!(space_films("[]").len(), 0);
}

#[test]
fn space_requests_are_as_the_interface_wants_them() {
    let scraper = SpaceCinemaScraper::new(1009, "2026-02-09T00:00:00".to_string());
    let r = scraper.listing();
    assert_eq!(r.url, "https://www.thespacecinema.it/api/microservice/showings/cinemas/1009/films");
    assert_eq!(r.accept, Some("application/json,text/javascript,*/*;q=0.1".to_string()));
    assert_eq!(
        r.query,
        vec![
            ("showingDate".to_string(), "2026-02-09T00:00:00".to_string()),
            ("minEmbargoLevel".to_string(), "3".to_string()),
            ("includesSession".to_string(), "true".to_string()),
            ("includeSessionAttributes".to_string(), "true".to_string()),
        ]
    );
    assert!(r.user_agent.starts_with("Mozilla/5.0 (Windows NT 10.0; Win64; x64)"));
    assert_eq!(scraper.rss_filename(), "space_cinema_1009.xml");
    assert_eq!(scraper.warm_up().unwrap().url, "https://www.thespacecinema.it/");
}

#[test]
fn padova_moments_beyond_the_calendar_give_no_showtime() {
    let body = r#"{"titoli": [{"titolo": "X", "categoria_film": "y", "eventi": [{"inizio": 9223372036854775807}, {"inizio": 0}, {"inizio": -1000}]}]}"#;
    let films = padova_films(body);
    assert_eq!(films[0].showtimes, Some(vec!["giovedì 01/01 ore 00:00".to_string(), "mercoledì 31/12 ore 23:59".to_string()]));
}
