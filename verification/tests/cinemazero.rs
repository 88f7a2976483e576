use cinema_scrape::cinemazero::{film_from_page, load, CinemazeroScraper};
use cinema_scrape::crawl::CinemaScraper;

const DETAIL: &str = r#"<html><body>
<nav>Menu</nav>
<h1>La  <i>Grazia</i></h1>
<img alt="Immagine del film La Grazia" src="/media/grazia.jpg">
<span aria-label="Uscita"> 2025 </span>
<div>Un presidente alla fine del mandato.</div>
<div>Un dilemma morale.</div>
<div>Genere</div><div> Drammatico </div>
<div>REGIA : Paolo Sorrentino</div>
<div>Cast</div><div>Toni Servillo, Anna Ferzetti</div>
<div>133 min</div>
<div>Programmazione e orari</div>
<div>10 Mar</div><div>SalaGrande 16:00</div><div>Zero 18:30 VO</div>
<div>11 Mar</div><div>21:00</div><div>In secolare: 9</div><div>senza orario</div>
<div>Oggi al cinema</div><div>12 Mar</div><div>20:00</div>
</body></html>"#;

#[test]
fn cinemazero_detail_page_gives_a_full_record() {
    let film = film_from_page("https://cinemazero.it/film/la-grazia/", &load(DETAIL)).unwrap();
    assert_eq!(film.title, "La Grazia");
    assert_eq!(film.poster_url, Some("https://cinemazero.it/media/grazia.jpg".to_string()));
    assert_eq!(film.release_date, Some("2025".to_string()));
    assert_eq!(film.cast, Some("Genere: Drammatico | Regia: Paolo Sorrentino | Cast: Toni Servillo, Anna Ferzetti".to_string()));
    assert_eq!(film.running_time, Some(133));
    assert_eq!(film.synopsis, Some("La Grazia 2025 Un presidente alla fine del mandato. Un dilemma morale.".to_string()));
    assert_eq!(
        film.showtimes,
        Some(vec!["10 Mar 16:00".to_string(), "10 Mar Zero 18:30".to_string(), "11 Mar 21:00".to_string()])
    );
}

#[test]
fn cinemazero_synopsis_falls_back_to_the_longest_paragraph() {
    let html = r#"<html><body><h1>Titolo</h1><div>Genere Commedia</div>
<p>Una frase lunga che racconta la trama del film con abbastanza parole per superare la soglia. Davvero.</p>
<p>Una frase ancora più lunga che però nomina la regia e quindi non conta come trama del film in questione, davvero.</p>
<p>Breve.</p></body></html>"#;
    let film = film_from_page("u", &load(html)).unwrap();
    assert_eq!(film.title, "Titolo");
    assert_eq!(film.cast, Some("Genere: Commedia".to_string()));
    assert_eq!(
        film.synopsis,
        Some("Una frase lunga che racconta la trama del film con abbastanza parole per superare la soglia. Davvero.".to_string())
    );
    assert_eq!(film.showtimes, None);
    assert_eq!(film.running_time, None);
}

#[test]
fn cinemazero_page_without_heading_gives_nothing() {
    assert!(film_from_page("u", &load("<html><body><p>Prima riga</p><p>x</p></body></html>")).is_none());
    assert!(film_from_page("u", &load("<html><body><h1> </h1></body></html>")).is_none());
    assert!(film_from_page("u", &load("<html><body></body></html>")).is_none());
}

#[test]
fn cinemazero_listing_keeps_own_film_pages() {
    let scraper = CinemazeroScraper::new("https://cinemazero.it/programmazione/".to_string());
    let listing = r#"<a href="/film/b/">B</a><a href="https://cinemazero.it/film/a/">A</a>
<a href="https://18tickets.it/film/9">T</a><a href="/film/b/">B2</a><a href="film/c">C</a><a href="/programmazione/">P</a>"#;
    let urls: Vec<String> = scraper.plan(listing).iter().map(|f| f.url.clone()).collect();
    assert_eq!(urls, vec!["https://cinemazero.it/film/a/".to_string(), "https://cinemazero.it/film/b/".to_string()]);
    assert_eq!(scraper.rss_filename(), "docs/feeds/cinemazero.xml");
    assert_eq!(scraper.listing().url, "https://cinemazero.it/programmazione/");
}
