use cinema_scrape::cinergia_conegliano::{extract_film_ids, extract_film_ids_from_raw, film_from_page, load, CinergiaConeglianoScraper};
use cinema_scrape::crawl::CinemaScraper;

fn text(v: &Vec<char>) -> String {
    v.iter().collect()
}

#[test]
fn cinergia_film_numbers_come_from_links() {
    let html = r#"<a href="/film/41324">a</a><a href="https://x.18tickets.it/film/100?ref_date=2026-02-09">b</a>
<a href="/film/41324/uuid-1">c</a><a href="/film/abc">d</a><a href=" /film/7/ ">e</a><a href="/film/">f</a>"#;
    let ids: Vec<String> = extract_film_ids(html).iter().map(text).collect();
    assert_eq!(ids, vec!["100", "41324", "7"]);
}

#[test]
fn cinergia_film_numbers_fall_back_to_raw_text() {
    let html = r#"<script>var films = ["/film/55/x", "\/film\/12", "/film/9", "/film/55", "/film/x"];</script>"#;
    assert_eq!(extract_film_ids_from_raw(html), vec!["55", "9"]);
    let ids: Vec<String> = extract_film_ids(html).iter().map(text).collect();
    assert_eq!(ids, vec!["55", "9"]);
    assert_eq!(extract_film_ids_from_raw("nothing").len(), 0);
    assert_eq!(extract_film_ids_from_raw("/film/").len(), 0);
    assert_eq!(extract_film_ids_from_raw("/film/12/film/13"), vec!["12", "13"]);
}

const DETAIL: &str = r#"<html><head><meta property="og:image" content="https://img/p.jpg"></head><body>
<h3>Plot</h3><h2>Hamnet</h2>
<div>Durata: 125 minuti</div>
<div>Director:</div><div>Chloé Zhao</div>
<div>With:</div><div>Jessie Buckley, Paul Mescal</div>
<div>Trama</div>
<div>Agnes e William affrontano la perdita del figlio.</div>
<div>breve</div>
<div>Seleziona il giorno e l'orario dello spettacolo</div>
<div>Friday 13 February</div>
<div>- 17:30</div><div>21:00</div>
<div>14/02/2026</div><div>9:45</div><div>945</div>
</body></html>"#;

#[test]
fn cinergia_detail_page_gives_a_full_record() {
    let film = film_from_page("https://c.18tickets.it/film/41324?ref_date=2026-02-13", &load(DETAIL)).unwrap();
    assert_eq!(film.title, "Hamnet");
    assert_eq!(film.url, "https://c.18tickets.it/film/41324?ref_date=2026-02-13");
    assert_eq!(film.poster_url, Some("https://img/p.jpg".to_string()));
    assert_eq!(film.running_time, Some(125));
    assert_eq!(film.cast, Some("Regia: Chloé Zhao. Con: Jessie Buckley, Paul Mescal".to_string()));
    assert_eq!(film.synopsis, Some("Agnes e William affrontano la perdita del figlio.".to_string()));
    assert_eq!(
        film.showtimes,
        Some(vec![
            "Friday 13 February ore 17:30".to_string(),
            "Friday 13 February ore 21:00".to_string(),
            "14/02/2026 ore 9:45".to_string(),
        ])
    );
}

#[test]
fn cinergia_page_without_title_gives_nothing() {
    let html = r#"<html><body><h1>Info</h1><h2> </h2><h3>tRaMa</h3><div>20:15</div></body></html>"#;
    assert!(film_from_page("u", &load(html)).is_none());
}

#[test]
fn cinergia_poster_falls_back_to_an_image() {
    let html = r#"<html><body><h1>Info</h1><h4>Titolo</h4><img src="https://x/cookie.png"><img src="/rel.png"><img src=" https://x/poster.png "><div>20:15</div></body></html>"#;
    let film = film_from_page("u", &load(html)).unwrap();
    assert_eq!(film.title, "Titolo");
    assert_eq!(film.poster_url, Some("https://x/poster.png".to_string()));
    assert_eq!(film.showtimes, Some(vec!["ore 20:15".to_string()]));
    assert_eq!(film.cast, None);
}

#[test]
fn cinergia_candidates_carry_the_day_asked_for() {
    let scraper = CinergiaConeglianoScraper::new("https://coneglianocinergia.18tickets.it//".to_string()).on("2026-02-13".to_string());
    assert_eq!(scraper.base_url, "https://coneglianocinergia.18tickets.it");
    let planned = scraper.plan(r#"<a href="/film/2">a</a><a href="/film/10?x=1">b</a>"#);
    assert_eq!(planned.len(), 2);
    assert_eq!(planned[0].url, "https://coneglianocinergia.18tickets.it/film/10?ref_date=2026-02-13");
    assert_eq!(planned[0].title, "");
    assert_eq!(planned[1].url, "https://coneglianocinergia.18tickets.it/film/2?ref_date=2026-02-13");
    assert_eq!(scraper.rss_filename(), "docs/feeds/cinergia_conegliano.xml");
    assert_eq!(scraper.listing().url, "https://coneglianocinergia.18tickets.it");
}

#[test]
fn cinergia_repeated_links_give_each_number_once() {
    let html = r#"<a href="/film/300">a</a><a href="/film/41324?d=1">b</a><a href="/film/41324/">c</a><a href="/film/41324/uuid">d</a><a href="/film/300?ref_date=x">e</a><a href="https://h/film/7?x">f</a>"#;
    let ids: Vec<String> = extract_film_ids(html).iter().map(text).collect();
    assert_eq!(ids, vec!["300", "41324", "7"]);
}
