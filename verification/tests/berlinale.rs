use cinema_scrape::berlinale::{
    extract_film_urls, extract_film_urls_from_raw, extract_initial_result_json,
    extract_object_literal, film_from_page, is_film_detail_url, keep_if_json, BerlinaleScraper,
};
use cinema_scrape::crawl::CinemaScraper;

#[test]
fn berlinale_detail_addresses_are_recognised() {
    assert!(is_film_detail_url("https://www.berlinale.de/en/2026/programme/202608333.html"));
    assert!(!is_film_detail_url("https://www.berlinale.de/en/2026/programme/12345.html"));
    assert!(!is_film_detail_url("https://www.berlinale.de/en/2026/programme/on-sale.html"));
    assert!(!is_film_detail_url("https://www.berlinale.de/en/2026/films/202608333.html"));
    assert!(!is_film_detail_url("https://www.berlinale.de/en/2026/programme/202608333"));
    assert!(is_film_detail_url("/programme/123456.html.html"));
}

#[test]
fn berlinale_listing_links_are_sorted_and_unique() {
    let html = r#"<a href="/en/2026/programme/202608333.html">a</a>
<a href="https://www.berlinale.de/en/2026/programme/202601111.html">b</a>
<a href=" /en/2026/programme/202608333.html ">a again</a>
<a href="/en/2026/programme/on-sale-from-today.html">listing</a>"#;
    assert_eq!(
        extract_film_urls(html, "unused"),
        vec![
            "https://www.berlinale.de/en/2026/programme/202601111.html".to_string(),
            "https://www.berlinale.de/en/2026/programme/202608333.html".to_string(),
        ]
    );
}

#[test]
fn berlinale_raw_text_is_the_fallback() {
    let html = r#"<script>var x = {"url":"\/programme\/202608333.html","u2":"/programme/202601111.html","short":"/programme/123.html","open":"/programme/2026011112"};</script>"#;
    let expected = vec![
        "https://www.berlinale.de/en/2026/programme/202601111.html".to_string(),
        "https://www.berlinale.de/en/2026/programme/202608333.html".to_string(),
    ];
    assert_eq!(extract_film_urls_from_raw(html, ""), expected);
    assert_eq!(extract_film_urls(html, ""), expected);
    assert_eq!(
        extract_film_urls_from_raw("ids 202612345 and 2026123 and 202699999x", ""),
        vec![
            "https://www.berlinale.de/en/2026/programme/202612345.html".to_string(),
            "https://www.berlinale.de/en/2026/programme/202699999.html".to_string(),
        ]
    );
    assert_eq!(extract_film_urls_from_raw("nothing here", "").len(), 0);
}

#[test]
fn berlinale_object_literal_is_cut_out() {
    let html = r#"x initial_result: {"a": "}{", "b": {"c": 'it\'s }'}} , more: {}"#;
    assert_eq!(
        extract_object_literal(html),
        Some(r#"{"a": "}{", "b": {"c": 'it\'s }'}}"#.to_string())
    );
    assert_eq!(extract_object_literal("initial_result: {\"a\": 1"), None);
    assert_eq!(extract_object_literal("initial_result: none"), None);
    assert_eq!(extract_object_literal("no data"), None);
    assert_eq!(extract_object_literal("initial_result: {a}"), Some("{a}".to_string()));
}

#[test]
fn berlinale_data_is_taken_only_where_it_is_json() {
    let html = r#"x initial_result: {"a": "}{", "b": {"c": "it's \" }"}} , more: {}"#;
    assert_eq!(
        extract_initial_result_json(html),
        Some(r#"{"a": "}{", "b": {"c": "it's \" }"}}"#.to_string())
    );
    assert_eq!(extract_initial_result_json("initial_result: {a}"), None);
    assert_eq!(extract_initial_result_json("initial_result: {'a': 1}"), None);
    assert_eq!(extract_initial_result_json("initial_result: {}"), Some("{}".to_string()));
    assert_eq!(extract_initial_result_json("initial_result: {\"a\": 1"), None);
    assert_eq!(extract_initial_result_json("initial_result: none"), None);
    assert_eq!(extract_initial_result_json("no data"), None);
    assert_eq!(keep_if_json("{}".to_string(), true), Some("{}".to_string()));
    assert_eq!(keep_if_json("{}".to_string(), false), None);
}

const DETAIL: &str = r#"<html><head><meta property="og:title" content="Declared | Berlinale">
<meta property="og:image" content="/media/og.jpg"></head><body><h1>Heading</h1>
<script>window.state = { initial_result: {"title": "Rose | Berlinale",
"meta": ["93'"], "synopsis": "First line.<br />Second line.<br/>Third.",
"crewMembers": [{"function": "Director", "names": [{"name": "Ada Lo"}]},
 {"function": "Editor", "names": [{"name": "Ed It"}]},
 {"function": "screenplay BASED on", "names": [{"name": "Wri Ter"}]}],
"castMembers": [{"name": "Act One"}, {"name": "Act Two"}],
"filmstills": [{"media": {"defaultImage": {"uri": "/stills/1.jpg"}}}, {"media": {"defaultImage": {"uri": "/plakate/p.jpg"}}}],
"events": [{"displayDate": {"dayAndMonth": "Feb 13", "weekday": "Fri"}, "time": {"text": "17:30", "durationInMinutes": 95}, "venueHall": "Zoo Palast"},
 {"venueHall": "Nowhere"}]} };</script></body></html>"#;

#[test]
fn berlinale_detail_page_is_read_from_its_data() {
    let film = film_from_page("https://www.berlinale.de/en/2026/programme/202608333.html", DETAIL).unwrap();
    assert_eq!(film.title, "Rose by Ada Lo");
    assert_eq!(film.running_time, Some(93));
    assert_eq!(
        film.cast,
        Some("by Ada Lo (Director), Wri Ter (screenplay BASED on) Cast: Act One, Act Two".to_string())
    );
    assert_eq!(film.synopsis, Some("First line.\nSecond line.\nThird.".to_string()));
    assert_eq!(film.showtimes, Some(vec!["Fri Feb 13 17:30 - Zoo Palast".to_string()]));
    assert_eq!(film.poster_url, Some("https://www.berlinale.de/plakate/p.jpg".to_string()));
    assert_eq!(film.release_date, None);
}

#[test]
fn berlinale_detail_page_without_data_is_read_from_its_text() {
    let html = r#"<html><head><meta property="og:title" content="Declared | Berlinale">
<meta property="og:image" content="media/og.jpg"></head><body><h1>Heading</h1>
<div>Regie:</div><div>Ada Lo</div><div>Cast:</div><div>Act One</div>
<div>102 min</div><div>Synopsis</div>
<div>A rather long line of synopsis text that goes well beyond fifty bytes in length.</div>
<div>A middling line of prose.</div>
<div>Another rather long line of synopsis text that goes well beyond fifty bytes too.</div>
<div>short</div>
<div>This long line stands after the short one and is therefore not part of the synopsis.</div>
<div>Screenings 13 February</div><div>Screenings 14 February</div></body></html>"#;
    let film = film_from_page("u", html).unwrap();
    assert_eq!(film.title, "Declared by Ada Lo");
    assert_eq!(film.cast, Some("Ada Lo. Act One".to_string()));
    assert_eq!(film.running_time, Some(102));
    assert_eq!(
        film.synopsis,
        Some("A rather long line of synopsis text that goes well beyond fifty bytes in length.\n\nAnother rather long line of synopsis text that goes well beyond fifty bytes too.".to_string())
    );
    assert_eq!(film.showtimes, Some(vec!["Screenings 13 February".to_string()]));
    assert_eq!(film.poster_url, Some("https://www.berlinale.de/media/og.jpg".to_string()));
}

#[test]
fn berlinale_page_without_title_is_dropped() {
    assert!(film_from_page("u", "<html><body><p>text</p></body></html>").is_none());
    assert!(film_from_page("u", "<html><body><h1>https://x</h1></body></html>").is_none());
    let scraper = BerlinaleScraper::new("https://www.berlinale.de/en/programme/on-sale-from-today.html".to_string());
    assert_eq!(scraper.rss_filename(), "docs/feeds/berlinale.xml");
    assert_eq!(scraper.listing().url, "https://www.berlinale.de/en/programme/on-sale-from-today.html");
}

#[test]
fn berlinale_data_has_fallbacks_of_its_own() {
    let html = r#"<html><body><script>initial_result: {"title": "Blue \u2013 Berlinale",
"meta": ["n/a"], "events": [{"time": {"durationInMinutes": 4294967396}}],
"crewMembers": [{"function": "Director"}, {"function": "Editor", "names": [{"name": "E"}]}],
"reducedCrewMembers": [{"name": "Ann Lee (Director)"}, {"name": "Bo"}],
"castMembers": [],
"image": {"default": {"uri": "https://cdn/i.jpg"}},
"synopsis": "  <br/> "}</script>
<div>Cast:</div><div>Zed</div></body></html>"#;
    let film = film_from_page("u", html).unwrap();
    assert_eq!(film.title, "Blue by Ann Lee");
    assert_eq!(film.running_time, Some(100));
    assert_eq!(film.cast, Some("by Ann Lee (Director), Bo. Zed".to_string()));
    assert_eq!(film.poster_url, Some("https://cdn/i.jpg".to_string()));
    assert_eq!(film.synopsis, None);
    assert_eq!(film.showtimes, None);
}

#[test]
fn berlinale_text_that_is_no_json_holds_nothing() {
    let html = "<html><body><h1>Only heading</h1><script>initial_result: {title: 'x'}</script><img src='/img/programme/p.jpg'></body></html>";
    assert_eq!(extract_object_literal(html), Some("{title: 'x'}".to_string()));
    assert_eq!(extract_initial_result_json(html), None);
    let film = film_from_page("u", html).unwrap();
    assert_eq!(film.title, "Only heading");
    assert_eq!(film.poster_url, Some("https://www.berlinale.de/img/programme/p.jpg".to_string()));
    assert_eq!(film.cast, None);
}
