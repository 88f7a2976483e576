use cinema_scrape::film::Film;
use cinema_scrape::merge::{absorb, distinct_strings, merge_films, normalize};

fn showing(url: &str, title: &str, times: &[&str]) -> Film {
    let mut film = Film::bare(title.to_string(), url.to_string());
    film.showtimes = Some(times.iter().map(|t| t.to_string()).collect());
    film
}

fn summary(films: &[Film]) -> Vec<(String, String, Option<Vec<String>>)> {
    films.iter().map(|f| (f.url.clone(), f.title.clone(), f.showtimes.clone())).collect()
}

#[test]
fn records_with_one_address_become_one() {
    let films = vec![
        showing("/film/100", "A", &["Mon 17:00"]),
        showing("/film/200", "B", &["Tue 18:00"]),
        showing("/film/100", "A again", &["Wed 19:00", "Mon 17:00"]),
    ];
    let merged = merge_films(&films);
    assert_eq!(merged.len(), 2);
    assert_eq!(merged[0].url, "/film/100");
    assert_eq!(merged[0].title, "A");
    assert_eq!(merged[0].showtimes, Some(vec!["Mon 17:00".to_string(), "Wed 19:00".to_string()]));
    assert_eq!(merged[1].url, "/film/200");
}

#[test]
fn first_seen_fields_are_kept() {
    let mut a = Film::bare("A".to_string(), "u".to_string());
    a.cast = Some("first".to_string());
    let mut b = Film::bare("B".to_string(), "u".to_string());
    b.cast = Some("second".to_string());
    b.synopsis = Some("plot".to_string());
    b.running_time = Some(90);
    b.poster_url = Some("p".to_string());
    b.release_date = Some("2025".to_string());
    let m = absorb(&a, &b);
    assert_eq!(m.title, "A");
    assert_eq!(m.cast, Some("first".to_string()));
    assert_eq!(m.synopsis, Some("plot".to_string()));
    assert_eq!(m.running_time, Some(90));
    assert_eq!(m.poster_url, Some("p".to_string()));
    assert_eq!(m.release_date, Some("2025".to_string()));
    assert_eq!(m.showtimes, None);
    let untitled = Film::bare(String::new(), "u".to_string());
    assert_eq!(absorb(&untitled, &b).title, "B");
}

#[test]
fn merging_twice_changes_nothing() {
    let films = vec![
        showing("a", "A", &["1", "1", "2"]),
        showing("b", "B", &[]),
        showing("a", "A2", &["2", "3"]),
        Film::bare("C".to_string(), "c".to_string()),
        showing("b", "B2", &["9"]),
    ];
    let once = merge_films(&films);
    let twice = merge_films(&once);
    assert_eq!(summary(&once), summary(&twice));
    assert_eq!(once.len(), 3);
    assert_eq!(once[0].showtimes, Some(vec!["1".to_string(), "2".to_string(), "3".to_string()]));
    assert_eq!(once[1].showtimes, Some(vec!["9".to_string()]));
    assert_eq!(once[2].showtimes, None);
}

#[test]
fn repeated_phrases_are_dropped() {
    let list = vec!["a".to_string(), "b".to_string(), "a".to_string(), "c".to_string(), "b".to_string()];
    assert_eq!(distinct_strings(&list), vec!["a".to_string(), "b".to_string(), "c".to_string()]);
    let n = normalize(&showing("u", "T", &["x", "x"]));
    assert_eq!(n.showtimes, Some(vec!["x".to_string()]));
    assert_eq!(merge_films(&Vec::new()).len(), 0);
}
