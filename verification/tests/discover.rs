use cinema_scrape::cinema_trieste_scraper::canonical_film_key;
use cinema_scrape::discover::{discover, sort_unique, Candidate};
use cinema_scrape::order::less;

fn chars(s: &str) -> Vec<char> {
    s.chars().collect()
}

fn text(v: &Vec<char>) -> String {
    v.iter().collect()
}

#[test]
fn canonical_key_strips_the_stamp() {
    assert_eq!(canonical_film_key("/film/42_202602091700/"), canonical_film_key("/film/42_202602091801/"));
    assert_eq!(canonical_film_key("/film/42_202602091700/"), "/film/42/");
    assert_eq!(canonical_film_key("/film/42-202602091700"), "/film/42/");
    assert_eq!(canonical_film_key("https://x.org/film/il-padrino_202601011200///"), "https://x.org/film/il-padrino/");
}

#[test]
fn canonical_key_keeps_what_is_no_stamp() {
    assert_eq!(canonical_film_key("/film/42/"), "/film/42/");
    assert_eq!(canonical_film_key("/film/42"), "/film/42/");
    assert_eq!(canonical_film_key("/film/_202602091700/"), "/film/_202602091700/");
    assert_eq!(canonical_film_key("/film/42_20260209170/"), "/film/42_20260209170/");
    assert_eq!(canonical_film_key("/film/42x202602091700/"), "/film/42x202602091700/");
    assert_eq!(canonical_film_key("/film/42_2026020917ab/"), "/film/42_2026020917ab/");
    assert_eq!(canonical_film_key("plain"), "plain/");
    assert_eq!(canonical_film_key("/film/100?d=2"), "/film/100/");
    assert_eq!(canonical_film_key("/film/100/?d=2"), canonical_film_key("/film/100"));
    assert_eq!(canonical_film_key("/film/42_202602091700?x=1/2"), "/film/42/");
    assert_eq!(canonical_film_key("?q"), "/");
    assert_eq!(canonical_film_key(""), "/");
}

#[test]
fn discovery_keeps_one_address_per_key_in_order_of_keys() {
    let links = [
        "https://x.org/film/b_202602091700/",
        "https://x.org/film/a_202602101700/",
        "https://x.org/film/b_202602111700/",
        "https://x.org/film/c/",
        "https://x.org/film/a_202602121700/",
    ];
    let items: Vec<Candidate> = links
        .iter()
        .map(|l| Candidate { key: chars(&canonical_film_key(l)), url: chars(l) })
        .collect();
    let found = discover(&items);
    let urls: Vec<String> = found.iter().map(|c| text(&c.url)).collect();
    assert_eq!(
        urls,
        vec![
            "https://x.org/film/a_202602101700/".to_string(),
            "https://x.org/film/b_202602091700/".to_string(),
            "https://x.org/film/c/".to_string(),
        ]
    );
}

#[test]
fn sorting_is_by_code_point_and_drops_repeats() {
    let urls = vec![chars("b"), chars("a"), chars("ab"), chars("b"), chars(""), chars("B"), chars("é")];
    let sorted: Vec<String> = sort_unique(&urls).iter().map(text).collect();
    let mut expected: Vec<String> = vec!["b", "a", "ab", "", "B", "é"].into_iter().map(String::from).collect();
    expected.sort();
    assert_eq!(sorted, expected);
    assert!(less(&chars("a"), &chars("ab")));
    assert!(!less(&chars("ab"), &chars("a")));
    assert!(!less(&chars("a"), &chars("a")));
    assert!(less(&chars("Z"), &chars("a")));
}
