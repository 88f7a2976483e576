use cinema_scrape::feed::{
    date_names_month, feed_item, feed_items, film_description, film_description_and_pub_date,
    generate_rss, generate_rss_at, generate_rss_merged_at, merged_feed_items,
};
use cinema_scrape::film::Film;

fn full_film() -> Film {
    Film {
        title: "Nosferatu".to_string(),
        url: "https://example.org/film/1".to_string(),
        poster_url: Some("https://example.org/p.jpg".to_string()),
        cast: Some("Max Schreck".to_string()),
        release_date: Some("10 Febbraio 2026".to_string()),
        running_time: Some(94),
        synopsis: Some("A vampire tale.".to_string()),
        showtimes: Some(vec!["Lun 9 ore 17:15".to_string(), "Mar 10 ore 19:10".to_string()]),
    }
}

#[test]
fn description_holds_every_fragment_in_order() {
    let description = film_description(&full_film());
    assert_eq!(
        description,
        "A vampire tale.<br/>\nCast: Max Schreck<br/>\nData: 10 Febbraio 2026<br/>\nDurata: 94 minuti<br/>\n<img src=\"https://example.org/p.jpg\" alt=\"Poster\" /><br/>\nOrari: Lun 9 ore 17:15, Mar 10 ore 19:10"
    );
}

#[test]
fn description_of_bare_film_is_placeholder() {
    let film = Film::bare("Metropolis".to_string(), "https://example.org/m".to_string());
    assert_eq!(film_description(&film), "Film: Metropolis");
}

#[test]
fn description_skips_absent_fields() {
    let mut film = Film::bare("M".to_string(), "u".to_string());
    film.running_time = Some(0);
    film.showtimes = Some(Vec::new());
    assert_eq!(film_description(&film), "Durata: 0 minuti");
    film.running_time = None;
    assert_eq!(film_description(&film), "Film: M");
    film.cast = Some("X".to_string());
    film.showtimes = Some(vec!["a".to_string()]);
    assert_eq!(film_description(&film), "Cast: X<br/>\nOrari: a");
}

#[test]
fn publish_date_only_for_recognised_months() {
    assert!(date_names_month("10 Febbraio 2026"));
    assert!(date_names_month("Gennaio"));
    assert!(date_names_month("1 Marzo"));
    assert!(!date_names_month("10 Aprile 2026"));
    assert!(!date_names_month("2025"));
    assert!(!date_names_month("febbraio"));
    let (_, date) = film_description_and_pub_date(&full_film(), "Mon, 09 Feb 2026 10:00:00 +0000");
    assert_eq!(date, Some("Mon, 09 Feb 2026 10:00:00 +0000".to_string()));
    let mut other = full_film();
    other.release_date = Some("2025".to_string());
    assert_eq!(film_description_and_pub_date(&other, "now").1, None);
    other.release_date = None;
    assert_eq!(film_description_and_pub_date(&other, "now").1, None);
}

#[test]
fn entry_is_identified_by_the_address() {
    let item = feed_item(&full_film(), "now", None);
    assert_eq!(item.guid, "https://example.org/film/1");
    assert_eq!(item.link, "https://example.org/film/1");
    assert_eq!(item.title, "Nosferatu");
    assert!(item.permalink);
    assert_eq!(item.category, None);
    assert_eq!(item.pub_date, Some("now".to_string()));
    let labelled = feed_item(&full_film(), "now", Some("Rex"));
    assert_eq!(labelled.category, Some("Rex".to_string()));
}

#[test]
fn one_entry_per_film() {
    let films = vec![full_film(), Film::bare("B".to_string(), "u2".to_string())];
    let items = feed_items(&films, "now");
    assert_eq!(items.len(), 2);
    assert_eq!(items[1].description, "Film: B");
    assert_eq!(items[1].pub_date, None);
}

#[test]
fn merged_entries_carry_their_venue() {
    let a = vec![full_film()];
    let b = vec![Film::bare("B".to_string(), "u2".to_string()), Film::bare("C".to_string(), "u3".to_string())];
    let sources: Vec<(&str, &[Film])> = vec![("Rex", a.as_slice()), ("Astra", b.as_slice())];
    let items = merged_feed_items(&sources, "now");
    assert_eq!(items.len(), 3);
    assert_eq!(items[0].category, Some("Rex".to_string()));
    assert_eq!(items[1].category, Some("Astra".to_string()));
    assert_eq!(items[2].title, "C");
}

#[test]
fn feed_document_holds_the_entries() {
    let films = vec![full_film()];
    let xml = generate_rss_at(&films, "Title", "https://example.org/", "About", "Mon, 09 Feb 2026 10:00:00 +0000").unwrap();
    assert!(xml.contains("<title>Title</title>"));
    assert!(xml.contains("<link>https://example.org/</link>"));
    assert!(xml.contains("<guid>https://example.org/film/1</guid>") || xml.contains("<guid isPermaLink=\"true\">https://example.org/film/1</guid>"));
    assert!(xml.contains("<pubDate>Mon, 09 Feb 2026 10:00:00 +0000</pubDate>"));
    assert!(xml.contains("Durata: 94 minuti"));
    assert!(!xml.contains("<category>"));
    let dated = generate_rss(&films, "Title", "https://example.org/", "About").unwrap();
    assert!(dated.contains("<pubDate>"));
}

#[test]
fn merged_feed_document_labels_entries() {
    let a = vec![full_film()];
    let sources: Vec<(&str, &[Film])> = vec![("Rex", a.as_slice())];
    let xml = generate_rss_merged_at("T", "L", "D", &sources, "now").unwrap();
    assert!(xml.contains("<category>Rex</category>"));
}

#[test]
fn description_is_never_empty() {
    let mut film = Film::bare("M".to_string(), "u".to_string());
    film.synopsis = Some(String::new());
    assert_eq!(film_description(&film), "Film: M");
    film.cast = Some(String::new());
    assert_eq!(film_description(&film), "Cast: ");
    film.synopsis = Some("S".to_string());
    assert_eq!(film_description(&film), "S<br/>\nCast: ");
    let untitled = Film::bare(String::new(), String::new());
    assert_eq!(film_description(&untitled), "Film: ");
}
