use cinema_scrape::crawl::CinemaScraper;
use cinema_scrape::enrico_pizzuti::{film_from_page, load, EnricoPizzutiScraper};

#[test]
fn pizzuti_season_links_come_from_the_nearest_container() {
    let listing = r#"<html><body>
<div id="other"><h5>News</h5><a href="/film/old">old</a></div>
<div id="l3"><div id="l2"><div id="l1"><h5> <b>CineFORUM</b> 2026 </h5></div></div>
<a href="/film/zeta">Z</a><a href="/news/x">n</a><a href="https://www.enricopizzuti.it/film/alfa">A</a><a href="/film/zeta">Z</a></div>
</body></html>"#;
    let scraper = EnricoPizzutiScraper::new("https://www.enricopizzuti.it/".to_string());
    let urls: Vec<String> = scraper.plan(listing).iter().map(|f| f.url.clone()).collect();
    assert_eq!(urls, vec!["https://www.enricopizzuti.it/film/alfa".to_string(), "https://www.enricopizzuti.it/film/zeta".to_string()]);
    assert_eq!(scraper.plan("<html><body><h5>Altro</h5><a href='/film/x'>x</a></body></html>").len(), 0);
    assert_eq!(scraper.rss_filename(), "docs/feeds/enrico_pizzuti.xml");
}

#[test]
fn pizzuti_detail_page_gives_a_full_record() {
    let html = r#"<html><body><div class="container film-description"><h1> Perfect  <i>Days</i></h1>
<div class="film-date"> Giovedì 12 febbraio <b>ore 21</b></div>
<div class="film-cast"><div class="director">di Wim Wenders</div><div class="nazione"> </div><div class="cast">con Koji Yakusho</div></div></div>
<div class="film-content"><div class="film-text"><p>Hirayama pulisce i bagni di Tokyo.</p><p>Second.</p></div>
<div class="film-screens"><img src=" /img/pd.jpg "></div></div></body></html>"#;
    let film = film_from_page("https://www.enricopizzuti.it/film/perfect-days", &load(html)).unwrap();
    assert_eq!(film.title, "Perfect Days");
    assert_eq!(film.release_date, Some("Giovedì 12 febbraio ore 21".to_string()));
    assert_eq!(film.showtimes, Some(vec!["Giovedì 12 febbraio ore 21".to_string()]));
    assert_eq!(film.cast, Some("di Wim Wenders | con Koji Yakusho".to_string()));
    assert_eq!(film.synopsis, Some("Hirayama pulisce i bagni di Tokyo.".to_string()));
    assert_eq!(film.poster_url, Some(" /img/pd.jpg ".to_string()));
    assert_eq!(film.running_time, None);
}

#[test]
fn pizzuti_page_without_description_block_is_skipped() {
    assert!(film_from_page("u", &load("<html><body><h1>x</h1></body></html>")).is_none());
    assert!(film_from_page("u", &load(r#"<div class="container film-description"><p>x</p></div>"#)).is_none());
    assert!(film_from_page("u", &load(r#"<h1>Outside</h1><div class="container film-description"><h1> </h1></div>"#)).is_none());
    let film = film_from_page("u", &load(r#"<div class="container film-description"><h1>T</h1></div>"#)).unwrap();
    assert_eq!(film.title, "T");
    assert_eq!(film.showtimes, None);
    assert_eq!(film.cast, None);
}
