use cinema_scrape::crawl::CinemaScraper;
use cinema_scrape::porto_astra::{film_from_page, is_day_line, load, parse_time_tokens, PortoAstraScraper};

#[test]
fn astra_day_lines_are_recognised() {
    assert!(is_day_line("Domenica 15/02"));
    assert!(is_day_line("  **Mercoledì 18/02** "));
    assert!(is_day_line("Venerdì 1/3"));
    assert!(!is_day_line("Domenica"));
    assert!(!is_day_line("Domenica 15 febbraio"));
    assert!(!is_day_line("domenica 15/02"));
    assert!(!is_day_line("Mercoledì 18/02 e altro"));
    assert!(!is_day_line("ore 15/02"));
    assert!(is_day_line("Sabato 12345678901/2"));
    assert!(!is_day_line("Sabato 123456789012/2"));
}

#[test]
fn astra_time_tokens_are_found_back_to_back() {
    assert_eq!(parse_time_tokens("11.00"), vec!["11.00"]);
    assert_eq!(parse_time_tokens("21.30Ingresso"), vec!["21.30"]);
    assert_eq!(parse_time_tokens("17.4020.1022.30"), vec!["17.40", "20.10", "22.30"]);
    assert_eq!(parse_time_tokens("ore 9.15 e 123.45, 1.234"), vec!["9.15", "1.23"]);
    assert_eq!(parse_time_tokens("12345.67").len(), 0);
    assert_eq!(parse_time_tokens("17.3").len(), 0);
    assert_eq!(parse_time_tokens("17. 30").len(), 0);
    assert_eq!(parse_time_tokens("").len(), 0);
    assert_eq!(parse_time_tokens("è 7.05"), vec!["7.05"]);
}

const DETAIL: &str = r#"<html><body><h2>  Il <i>Gattopardo</i> </h2>
<img src="/logo.png"><img src=" https://cdn.appalcinema.it/p/1.jpg ">
<p>REGIA: Luchino Visconti</p><p>ATTORI: Burt Lancaster, Claudia Cardinale</p>
<p>Durata: 186 min</p>
<p>Home Il cinema Info e costi menu line that is long enough to be taken otherwise</p>
<p>Sicilia, 1860: il principe di Salina assiste al tramonto della sua classe.</p>
<p>short</p>
<p>Sito ufficiale</p>
<p>This long line comes after the end of the synopsis and must be left out of it.</p>
<h4>ORARI</h4>
<p>16.00</p>
<p>**Domenica 15/02**</p><p>17.4020.10</p>
<p>Lunedì 16/02</p>
<p>Martedì 17/02</p><p>21.30Ingresso ridotto</p>
<p>ALTRI FILM</p><p>Sabato 21/02</p><p>18.00</p>
</body></html>"#;

#[test]
fn astra_detail_page_gives_a_full_record() {
    let film = film_from_page("https://portoastra.it/film/gattopardo/", &load(DETAIL)).unwrap();
    assert_eq!(film.title, "Il Gattopardo");
    assert_eq!(film.poster_url, Some("https://cdn.appalcinema.it/p/1.jpg".to_string()));
    assert_eq!(film.cast, Some("Regia: Luchino Visconti. Attori: Burt Lancaster, Claudia Cardinale".to_string()));
    assert_eq!(film.running_time, Some(186));
    assert_eq!(film.synopsis, Some("Sicilia, 1860: il principe di Salina assiste al tramonto della sua classe.".to_string()));
    assert_eq!(
        film.showtimes,
        Some(vec!["Domenica 15/02 ore 16:00, 17:40, 20:10".to_string(), "Martedì 17/02 ore 21:30".to_string()])
    );
    assert_eq!(film.release_date, None);
}

#[test]
fn astra_title_may_stand_in_bold() {
    let html = "<html><body><b>REGIA: x</b><strong> </strong><b>Ran</b><p>ATTORI: Tatsuya Nakadai</p></body></html>";
    let film = film_from_page("u", &load(html)).unwrap();
    assert_eq!(film.title, "Ran");
    assert_eq!(film.cast, Some("Regia: x. Attori: Tatsuya Nakadai".to_string()));
    assert_eq!(film.showtimes, None);
    assert!(film_from_page("u", &load("<html><body><p>no title</p></body></html>")).is_none());
}

#[test]
fn astra_listing_is_sorted_and_unique() {
    let scraper = PortoAstraScraper::new("https://portoastra.it/questa-settimana/".to_string());
    let listing = r#"<a href="/film/zorro/">Z</a><a href="https://portoastra.it/film/amarcord/">A</a>
<a href="/film/zorro/">Z2</a><a href="x/film/b">B</a><a href="/info/">I</a><a href="  ">E</a>"#;
    let urls: Vec<String> = scraper.plan(listing).iter().map(|f| f.url.clone()).collect();
    assert_eq!(
        urls,
        vec![
            "https://portoastra.it/film/amarcord/".to_string(),
            "https://portoastra.it/film/zorro/".to_string(),
            "https://portoastra.it/x/film/b".to_string(),
        ]
    );
    assert_eq!(scraper.rss_filename(), "docs/feeds/padova.xml");
    assert_eq!(scraper.listing().url, "https://portoastra.it/questa-settimana/");
    assert!(scraper.warm_up().is_none());
}

#[test]
fn astra_times_under_a_day_get_colons() {
    let html = "<html><body><h1>T</h1><p>Domenica 15/02</p><p>17.4020.10</p></body></html>";
    let film = film_from_page("u", &load(html)).unwrap();
    assert_eq!(film.showtimes, Some(vec!["Domenica 15/02 ore 17:40, 20:10".to_string()]));
}
