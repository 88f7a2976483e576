use cinema_scrape::cinema_edera::{base_from_listing_url, enrich, load, read_timetable, CinemaEderaScraper};
use cinema_scrape::crawl::CinemaScraper;
use cinema_scrape::film::Film;

#[test]
fn edera_origin_is_cut_from_the_listing_address() {
    assert_eq!(base_from_listing_url("https://www.cinemamanzoni.it/i-film-della-settimana.html"), "https://www.cinemamanzoni.it");
    assert_eq!(base_from_listing_url("https://www.cinemaedera.it"), "https://www.cinemaedera.it");
    assert_eq!(base_from_listing_url("www.x.it/a/b"), "www.x.it");
    assert_eq!(base_from_listing_url("/a/b"), "");
    assert_eq!(base_from_listing_url(""), "");
    assert_eq!(base_from_listing_url("http://h:8080/p?q=://x/"), "http://h:8080");
}

const LISTING: &str = r#"<html><body><table id="timetable"><thead><tr><td><a class="category__item" href="/head.html"><strong>Head</strong></a></td></tr></thead>
<tbody>
<tr><td><a class="category__item" href="/film/zeta.html"><strong> Zeta </strong> 17:00</a></td>
    <td><a class="category__item" href="/film/alfa.html"><strong>Alfa</strong></a></td></tr>
<tr><td><a class="category__item" href="/film/zeta.html"><strong>Zeta bis</strong></a></td>
    <td><a class="category__item" href="/film/none.html">no title</a></td>
    <td><a class="category__item"><strong>No link</strong></a></td>
    <td><a class="other" href="/film/other.html"><strong>Other</strong></a></td></tr>
</tbody></table></body></html>"#;

#[test]
fn edera_timetable_gives_titled_candidates() {
    let films = read_timetable(&load(LISTING), "https://www.cinemaedera.it");
    let got: Vec<(String, String)> = films.iter().map(|f| (f.url.clone(), f.title.clone())).collect();
    assert_eq!(
        got,
        vec![
            ("https://www.cinemaedera.it/film/alfa.html".to_string(), "Alfa".to_string()),
            ("https://www.cinemaedera.it/film/zeta.html".to_string(), "Zeta".to_string()),
        ]
    );
    assert_eq!(read_timetable(&load("<html><body><a class='category__item' href='/x'><strong>X</strong></a></body></html>"), "b").len(), 0);
}

const DETAIL: &str = r#"<html><body><div id="main-content-wrapper"><section>
<div class="movie__images"><img class="img-responsive" src="/img/zeta.jpg"></div>
<p class="movie__time"> 132 min</p>
<div class="movie__option"><p><strong>Genere</strong>: Drammatico</p><p><strong>Anno</strong>: 2025 </p><p><strong>Cast</strong>: A, B: C</p><p>senza due punti</p><p><strong>Paese</strong>:Italia</p></div>
<p class="movie__describe"> Una trama. </p>
<h3> Titoletto </h3><h3></h3>
<strong>Importante</strong><strong>ORARI SPETTACOLI oggi</strong>
<div class="time-select"><div class="time-select__group"><p class="time-select__place"> Lunedì 9 Febbraio </p>
 <ul><li class="time-select__item">17:15</li><li class="time-select__item">sala 2 19:10 vo</li><li class="time-select__item">chiuso</li></ul></div>
 <div class="time-select__group"><ul><li class="time-select__item">21:00</li></ul></div></div>
</section></div></body></html>"#;

#[test]
fn edera_film_page_adds_to_the_candidate() {
    let candidate = Film::bare("Zeta".to_string(), "https://www.cinemaedera.it/film/zeta.html".to_string());
    let film = enrich(&candidate, &load(DETAIL), "https://www.cinemaedera.it");
    assert_eq!(film.title, "Zeta");
    assert_eq!(film.url, "https://www.cinemaedera.it/film/zeta.html");
    assert_eq!(film.poster_url, Some("https://www.cinemaedera.it/img/zeta.jpg".to_string()));
    assert_eq!(film.running_time, Some(132));
    assert_eq!(film.cast, Some("A, B: C".to_string()));
    assert_eq!(film.release_date, Some("2025".to_string()));
    assert_eq!(
        film.synopsis,
        Some("Genere: Drammatico | Paese: Italia\n\nUna trama.\n\nTitoletto\n\nImportante".to_string())
    );
    assert_eq!(
        film.showtimes,
        Some(vec!["Lunedì 9 Febbraio ore 17:15".to_string(), "Lunedì 9 Febbraio ore 19:10".to_string()])
    );
}

#[test]
fn edera_candidate_is_dropped_with_its_page() {
    let scraper = CinemaEderaScraper::new("https://www.cinemaedera.it/i-film-della-settimana.html".to_string());
    assert_eq!(scraper.base, "https://www.cinemaedera.it");
    let mut candidate = Film::bare("Zeta".to_string(), "u".to_string());
    candidate.cast = Some("kept".to_string());
    let none: Vec<Option<String>> = Vec::new();
    assert!(scraper.complete(&candidate, &None, &none).is_none());
    let film = scraper.complete(&candidate, &Some("<html></html>".to_string()), &none).unwrap();
    assert_eq!(film.cast, Some("kept".to_string()));
    assert_eq!(film.synopsis, None);
    assert_eq!(scraper.rss_filename(), "docs/feeds/cinema_edera.xml");
}
