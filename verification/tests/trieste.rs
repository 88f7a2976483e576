use cinema_scrape::cinema_trieste_scraper::{film_from_page, CinemaTriesteScraper};
use cinema_scrape::crawl::CinemaScraper;
use cinema_scrape::page::Page;

const SELECTORS: [&str; 7] = [
    "a[href*=\"/film/\"]",
    "#portfolio-single-content",
    "h1",
    "img[src*=\"wp-content/uploads\"]",
    "span.elementor-icon-list-text.elementor-post-info__item, span.elementor-post-info__item--type-custom",
    "ul",
    "p",
];

fn page(html: &str) -> Page {
    Page::parse(html, &SELECTORS.to_vec(), &vec!["href", "src"])
}

const DETAIL: &str = r#"<html><body><div id="portfolio-single-content">
<h1> Downton  <b>Abbey</b> </h1>
<div>Simon Curtis / Gran Bretagna, USA, 2025, 123′ / versione originale con sottotitoli</div>
<div>con Hugh Bonneville, Michelle Dockery</div>
<img src="/wp-content/uploads/2026/poster.jpg">
<ul>
<li><span class="elementor-icon-list-text elementor-post-info__item">Venerdì 13 febbraio</span></li>
<li><span class="elementor-icon-list-text elementor-post-info__item">17.30</span></li>
<li><span class="elementor-icon-list-text elementor-post-info__item">v.o. sott. ita</span></li>
<li><span class="elementor-icon-list-text elementor-post-info__item">Ingresso 7 euro</span></li>
<li><span class="elementor-icon-list-text elementor-post-info__item">Sabato 14 febbraio</span></li>
<li><span class="elementor-icon-list-text elementor-post-info__item">22.30</span></li>
<li><span class="elementor-icon-list-text elementor-post-info__item">22.30</span></li>
</ul>
<p>Short one.</p>
<p>The Crawley family and their staff enter a new decade with great expectations.</p>
<p>con Hugh Bonneville, Michelle Dockery and many many others in the cast</p>
<p>Rassegne</p>
<p>This long paragraph comes after the marker and must not be part of the synopsis.</p>
</div></body></html>"#;

#[test]
fn trieste_detail_page_gives_a_full_record() {
    let film = film_from_page("https://www.lacappellaunderground.org/film/downton_202602131730/", &page(DETAIL)).unwrap();
    assert_eq!(film.title, "Downton Abbey");
    assert_eq!(film.url, "https://www.lacappellaunderground.org/film/downton_202602131730/");
    assert_eq!(film.release_date, Some("2025".to_string()));
    assert_eq!(film.running_time, Some(123));
    assert_eq!(film.cast, Some("Hugh Bonneville, Michelle Dockery".to_string()));
    assert_eq!(film.poster_url, Some("https://www.lacappellaunderground.org/wp-content/uploads/2026/poster.jpg".to_string()));
    assert_eq!(
        film.showtimes,
        Some(vec!["Venerdì 13 febbraio ore 17:30".to_string(), "Sabato 14 febbraio ore 22:30".to_string()])
    );
    assert_eq!(
        film.synopsis,
        Some("The Crawley family and their staff enter a new decade with great expectations.".to_string())
    );
}

#[test]
fn trieste_page_without_film_block_gives_nothing() {
    assert!(film_from_page("u", &page("<html><body><h1>Other</h1></body></html>")).is_none());
}

#[test]
fn trieste_page_without_title_gives_nothing() {
    assert!(film_from_page("u", &page("<div id=\"portfolio-single-content\"><p>x</p></div>")).is_none());
    assert!(film_from_page("u", &page("<div id=\"portfolio-single-content\"><h1> </h1></div>")).is_none());
    assert!(film_from_page("u", &page("<h1>Outside</h1><div id=\"portfolio-single-content\"></div>")).is_none());
    let film = film_from_page("u", &page("<div id=\"portfolio-single-content\"><h1>T</h1><p>x</p></div>")).unwrap();
    assert_eq!(film.title, "T");
    assert_eq!(film.showtimes, None);
    assert_eq!(film.synopsis, None);
    assert_eq!(film.cast, None);
    assert_eq!(film.running_time, None);
    assert_eq!(film.release_date, None);
    assert_eq!(film.poster_url, None);
}

#[test]
fn trieste_listing_counts_stamped_links_once() {
    let listing = r#"<html><body>
<a href="/film/zeta_202602131730/">Z</a>
<a href="https://www.lacappellaunderground.org/film/alfa_202602141730/">A1</a>
<a href="/film/alfa_202602151730/">A2</a>
<a href="x/film/beta/">B</a>
<a href=" ">empty</a>
<a href="/altro/">no</a>
<a href="/film/zeta_202602161730/">Z again</a>
</body></html>"#;
    let scraper = CinemaTriesteScraper::new();
    let planned = scraper.plan(listing);
    let urls: Vec<String> = planned.iter().map(|f| f.url.clone()).collect();
    assert_eq!(
        urls,
        vec![
            "https://www.lacappellaunderground.org/film/alfa_202602141730/".to_string(),
            "https://www.lacappellaunderground.org/film/zeta_202602131730/".to_string(),
            "https://www.lacappellaunderground.org/x/film/beta/".to_string(),
        ]
    );
    assert_eq!(scraper.rss_filename(), "feed_trieste.xml");
    assert_eq!(scraper.listing().url, "https://www.lacappellaunderground.org/ariston/programma/");
}

#[test]
fn trieste_showtimes_outside_lists_are_read_too() {
    let html = r#"<div id="portfolio-single-content"><h1>T</h1>
<ul><li><span class="elementor-icon-list-text elementor-post-info__item">Ingresso libero</span></li></ul>
<ul><li><span class="elementor-icon-list-text elementor-post-info__item">12.00</span></li></ul>
<div><span class="elementor-post-info__item--type-custom">Lunedì 2 <b>marzo</b></span>
<span class="elementor-post-info__item--type-custom">18.00</span>
<span class="elementor-post-info__item--type-custom">20:15</span>
<span class="elementor-post-info__item--type-custom">18.00</span>
<span class="elementor-post-info__item--type-custom">senza data 3</span>
<span class="elementor-post-info__item--type-custom">Martedì 3 marzo</span>
<span class="elementor-post-info__item--type-custom">1.2.3</span></div></div>"#;
    let film = film_from_page("u", &page(html)).unwrap();
    assert_eq!(
        film.showtimes,
        Some(vec![
            "Lunedì 2 marzo ore 18:00".to_string(),
            "Lunedì 2 marzo ore 20:15".to_string(),
            "Martedì 3 marzo ore 1:2.3".to_string(),
        ])
    );
}

#[test]
fn trieste_meta_line_gives_year_and_minutes() {
    let html = r#"<div id="portfolio-single-content"><h1>T</h1><p>Regista / Italia, 19999, 1999 , 2001, 95' / v.o.</p><p>Altro / 2020, 80′</p><p>con </p><p>con  Uno, Due </p></div>"#;
    let film = film_from_page("u", &page(html)).unwrap();
    assert_eq!(film.release_date, Some("1999".to_string()));
    assert_eq!(film.running_time, Some(95));
    assert_eq!(film.cast, Some("Uno, Due".to_string()));
    let odd = film_from_page("u", &page(r#"<div id="portfolio-single-content"><h1>T</h1><p>a / b, 0042, x′</p></div>"#)).unwrap();
    assert_eq!(odd.release_date, Some("42".to_string()));
    assert_eq!(odd.running_time, None);
}

#[test]
fn trieste_links_that_differ_in_their_query_are_one_film() {
    let listing = r#"<a href="/film/100">a</a><a href="/film/100?d=2">b</a><a href="/film/200">c</a><a href="/film/200/?x=/y_202602131730">d</a>"#;
    let scraper = CinemaTriesteScraper::new();
    let urls: Vec<String> = scraper.plan(listing).iter().map(|f| f.url.clone()).collect();
    assert_eq!(
        urls,
        vec![
            "https://www.lacappellaunderground.org/film/100".to_string(),
            "https://www.lacappellaunderground.org/film/200".to_string(),
        ]
    );
}
