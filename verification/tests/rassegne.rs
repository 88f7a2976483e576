use cinema_scrape::crawl::CinemaScraper;
use cinema_scrape::rassegne::{film_from_page, load, load_edera, series_from_page, EderaRassegneScraper, RassegneScraper};
use cinema_scrape::rassegne_edera::{inner_urls, series_from_pages, RassegneScraperEdera};

const CRISTALLO: &str = r#"<html><body><h1>Big heading</h1>
<div class="row amy-single-movie">
 <div class="col-md-4 col-sm-4"><img src=" /wp/poster.jpg ">
  <p>Data uscita: 11 Novembre 2025</p><p>Vermiglio</p><p>Durata: 01 ore 59 minuti</p><p>Genere: Drammatico</p><p>Genere:</p>
 </div>
 <div class="entry-content"><p>First paragraph.</p><p> </p><p>Second <b>paragraph</b>.</p></div>
</div>
<div class="showtime-item single-cinema"><div class="st-item"><div class="st-title"><label>martedì 11 Nov.</label></div>
 <ul><li>17.00 - €4.00</li><li>ridotto</li><li>ore 21.15</li></ul></div></div>
<div class="showtime-item single-cinema"><div class="st-item"><ul><li>10.00</li></ul></div></div>
<div class="showtime-item single-cinema"><div class="st-item"><div class="st-title"><label>giovedì 13 Nov.</label></div>
 <ul><li>18.30</li></ul></div></div>
</body></html>"#;

#[test]
fn cristallo_detail_page_gives_a_full_record() {
    let film = film_from_page("https://www.cinemacristallo.com/movie/vermiglio/", &load(CRISTALLO)).unwrap();
    assert_eq!(film.title, "Vermiglio");
    assert_eq!(film.release_date, Some("11 Novembre 2025".to_string()));
    assert_eq!(film.running_time, Some(119));
    assert_eq!(film.cast, Some("Genere: Drammatico".to_string()));
    assert_eq!(film.poster_url, Some("https://www.cinemacristallo.com/wp/poster.jpg".to_string()));
    assert_eq!(film.synopsis, Some("Cinema: Cinema Cristallo Oderzo\n\nFirst paragraph.\n\nSecond paragraph .".to_string()));
    assert_eq!(
        film.showtimes,
        Some(vec![
            "martedì 11 Nov. ore 17:00".to_string(),
            "martedì 11 Nov. ore 21:15".to_string(),
            "giovedì 13 Nov. ore 18:30".to_string(),
        ])
    );
}

#[test]
fn cristallo_page_without_side_column_gives_a_plain_record() {
    let html = r#"<html><body><h1> Only <i>heading</i></h1><article><div class="entry-content"><p>Text.</p></div></article></body></html>"#;
    let film = film_from_page("u", &load(html)).unwrap();
    assert_eq!(film.title, "Only heading");
    assert_eq!(film.synopsis, Some("Text.".to_string()));
    assert_eq!(film.cast, None);
    assert_eq!(film.showtimes, None);
    assert!(film_from_page("the-url", &load("<html><body><p>x</p></body></html>")).is_none());
    let labels = r#"<div class="row amy-single-movie"><div class="col-md-4 col-sm-4"><p>Durata: 10 minuti</p></div></div>"#;
    assert!(film_from_page("u", &load(labels)).is_none());
}

#[test]
fn cristallo_listing_takes_the_links_of_the_section() {
    let scraper = RassegneScraper::new("https://www.cinemacristallo.com/rassegna-film-dautore/".to_string());
    let listing = r#"<a href="/movie/menu/">menu</a>
<div class="amy-section wpb_row vc_custom_1666775304691"><a href="/movie/b/">B</a><a href=" https://www.cinemacristallo.com/movie/a/ ">A</a><a href="/movie/b/">B</a><a href="/altro/">x</a></div>"#;
    let urls: Vec<String> = scraper.plan(listing).iter().map(|f| f.url.clone()).collect();
    assert_eq!(urls, vec!["https://www.cinemacristallo.com/movie/a/".to_string(), "https://www.cinemacristallo.com/movie/b/".to_string()]);
    assert_eq!(scraper.rss_filename(), "rassegne.xml");
}

const SERIES: &str = r#"<html><body><div id="main-content-wrapper"><section><h1>10 E LUCE</h1>
<p>Dal 3 febbraio al 7 aprile</p><p>Dieci film in lingua inglese.</p>
<a href="/rassegne/altra.html">altra</a><a href="/i-film/uno.html">Uno</a><a href="https://www.cinemaedera.it/film/due.html">Due</a><a href="/i-film/uno.html">Uno</a>
</section></div><div class="entry-content"><p>Entry text.</p></div></body></html>"#;

#[test]
fn edera_series_page_gives_a_record() {
    let film = series_from_page("https://www.cinemaedera.it/rassegne/10-e-luce.html", &load_edera(SERIES)).unwrap();
    assert_eq!(film.title, "10 E LUCE");
    assert_eq!(film.release_date, Some("Dal 3 febbraio al 7 aprile".to_string()));
    assert_eq!(film.synopsis, Some("Cinema: Cinema Edera\n\nDal 3 febbraio al 7 aprile\n\nEntry text.".to_string()));
    assert_eq!(film.poster_url, None);
    assert!(series_from_page("u", &load_edera("<html><body><p>Dal 1 al 2</p></body></html>")).is_none());
    let plain = series_from_page("u", &load_edera("<html><body><h1>S</h1></body></html>")).unwrap();
    assert_eq!(plain.title, "S");
    assert_eq!(plain.synopsis, Some("Cinema: Cinema Edera".to_string()));
    assert_eq!(plain.release_date, None);
}

#[test]
fn edera_series_listing_leaves_out_the_listing_itself() {
    let listing = r#"<a href="/rassegne/b.html">B</a><a href="/rassegne.html">all</a><a href="https://www.cinemaedera.it/rassegne/a.html">A</a><a href="/x/rassegne.html">L</a><a href="/rassegne/b.html">B</a>"#;
    let scraper = EderaRassegneScraper::new("https://www.cinemaedera.it/rassegne.html".to_string());
    let urls: Vec<String> = scraper.plan(listing).iter().map(|f| f.url.clone()).collect();
    let expected = vec!["https://www.cinemaedera.it/rassegne/a.html".to_string(), "https://www.cinemaedera.it/rassegne/b.html".to_string()];
    assert_eq!(urls, expected);
    let with_films = RassegneScraperEdera::new("https://www.cinemaedera.it/rassegne.html".to_string());
    let urls: Vec<String> = with_films.plan(listing).iter().map(|f| f.url.clone()).collect();
    assert_eq!(urls, expected);
    assert_eq!(scraper.rss_filename(), "rassegne_edera.xml");
    assert_eq!(with_films.rss_filename(), "rassegne_edera.xml");
}

#[test]
fn edera_series_with_films_lists_them() {
    let page = cinema_scrape::rassegne_edera::load(SERIES);
    let inner = inner_urls(&page);
    assert_eq!(inner, vec!["https://www.cinemaedera.it/i-film/uno.html".to_string(), "https://www.cinemaedera.it/film/due.html".to_string()]);
    let uno = r#"<html><body><h1>Uno</h1><div class="movie__images"><img class="img-responsive" src=" "></div><p class="movie__describe"> Trama  di uno. </p></body></html>"#;
    let due = r#"<html><body><div class="movie__images"><img class="img-responsive" src="/p/due.jpg"></div></body></html>"#;
    let pages = vec![Some(uno.to_string()), Some(due.to_string())];
    let film = series_from_pages("https://www.cinemaedera.it/rassegne/10-e-luce.html", SERIES, &pages).unwrap();
    assert_eq!(film.title, "10 E LUCE");
    assert_eq!(film.poster_url, Some("https://www.cinemaedera.it/p/due.jpg".to_string()));
    assert_eq!(
        film.synopsis,
        Some("Cinema: Cinema Edera\n\nDal 3 febbraio al 7 aprile\n\nDal 3 febbraio al 7 aprile\n\nDieci film in lingua inglese.\n\nI film della rassegna:\n\n* Uno\nTrama  di uno.\n\n* https://www.cinemaedera.it/film/due.html".to_string())
    );
    let missing = vec![None, Some(due.to_string())];
    let film = series_from_pages("u", SERIES, &missing).unwrap();
    assert!(film.synopsis.unwrap().ends_with("I film della rassegna:\n\n* https://www.cinemaedera.it/film/due.html"));
    let none: Vec<Option<String>> = vec![None, None];
    let film = series_from_pages("u", SERIES, &none).unwrap();
    assert!(series_from_pages("u", "<p>no heading</p>", &none).is_none());
    assert_eq!(film.poster_url, None);
    assert!(film.synopsis.unwrap().ends_with("Dieci film in lingua inglese."));
}
