use cinema_scrape::duration::parse_hours_minutes;
use cinema_scrape::lines::{clean, compact_text, space_out, trim_each};
use cinema_scrape::links::{make_absolute, make_prefixed};
use cinema_scrape::number::{keep_digits, leading_digits, parse_u32, u32_to_text, u32_to_text2};
use cinema_scrape::text::{
    slice, chars_of, contains, drop_controls, ends_with, eq_ignore_ascii_case, find, find_char,
    is_white, len_bytes, rfind_char, starts_with, strip, strip_end, take_until, trim,
    trim_end_matches, trim_start_matches,
};
use cinema_scrape::tokens::{
    join, replace, replace_first, split, split_once, split_whitespace, take_after_last,
    take_before,
};

fn c(s: &str) -> Vec<char> {
    s.chars().collect()
}

fn t(v: &Vec<char>) -> String {
    v.iter().collect()
}

fn ts(v: &Vec<Vec<char>>) -> Vec<String> {
    v.iter().map(t).collect()
}

#[test]
fn trimming_follows_unicode_white_space() {
    for s in ["", " ", "  a b \t\n", "\u{a0}x\u{3000}", "\u{2003}\u{85}y z\u{1680}", "\u{200b}k\u{200b}", "\u{feff}a"] {
        assert_eq!(t(&trim(&c(s))), s.trim());
    }
    for ch in ['\u{9}', '\u{d}', ' ', '\u{85}', '\u{a0}', '\u{1680}', '\u{2000}', '\u{200a}', '\u{2028}', '\u{2029}', '\u{202f}', '\u{205f}', '\u{3000}', 'a', '\u{200b}', '\u{8}', '\u{e}', '\u{1f}', '\u{180e}', '\u{2060}'] {
        assert_eq!(is_white(ch), ch.is_whitespace());
    }
    assert_eq!(chars_of("héllo"), c("héllo"));
}

#[test]
fn searching_agrees_with_the_standard_library() {
    let hay = c("abcabc/film/12abc");
    assert_eq!(find(&hay, &c("abc")), Some(0));
    assert_eq!(find(&hay, &c("/film/")), Some(6));
    assert_eq!(find(&hay, &c("zzz")), None);
    assert_eq!(find(&hay, &c("")), Some(0));
    assert_eq!(find(&c(""), &c("")), Some(0));
    assert_eq!(find(&c(""), &c("a")), None);
    assert!(contains(&hay, &c("c/f")));
    assert!(!contains(&hay, &c("cf")));
    assert!(starts_with(&hay, &c("abc")));
    assert!(!starts_with(&hay, &c("bc")));
    assert!(starts_with(&hay, &c("")));
    assert!(ends_with(&hay, &c("2abc")));
    assert!(!ends_with(&c("bc"), &c("abc")));
    assert_eq!(find_char(&hay, '/'), Some(6));
    assert_eq!(rfind_char(&hay, '/'), Some(11));
    assert_eq!(rfind_char(&hay, 'z'), None);
    assert!(eq_ignore_ascii_case(&c("DiRector:"), &c("director:")));
    assert!(!eq_ignore_ascii_case(&c("é"), &c("É")));
    assert!(!eq_ignore_ascii_case(&c("ab"), &c("abc")));
}

#[test]
fn stripping_matches_of_patterns_and_characters() {
    assert_eq!(t(&trim_end_matches(&c("a.html.html"), &c(".html"))), "a");
    assert_eq!(t(&trim_end_matches(&c(".html"), &c(".html"))), "");
    assert_eq!(t(&trim_end_matches(&c("a.htm"), &c(".html"))), "a.htm");
    assert_eq!(t(&trim_end_matches(&c("abc"), &c(""))), "abc");
    assert_eq!(t(&trim_start_matches(&c("/film//film/12"), &c("/film/"))), "12");
    assert_eq!(t(&trim_start_matches(&c("Durata: 90"), &c("Durata:"))), " 90");
    assert_eq!(t(&strip_end(&c("a///"), &c("/"), false)), "a");
    assert_eq!(t(&strip_end(&c("a/ /"), &c("/"), false)), "a/ ");
    assert_eq!(t(&strip(&c("**Mercoledì 18/02**"), &c("*"), false)), "Mercoledì 18/02");
    assert_eq!(t(&strip(&c(" : drama: "), &c(":"), true)), "drama");
    assert_eq!(t(&take_until(&c("123′ / it"), &c("′'"))), "123");
    assert_eq!(t(&take_until(&c("abc"), &c("′'"))), "abc");
    assert_eq!(t(&drop_controls(&c("a\u{1}b\nc\u{7f}d\u{9f}e\u{a0}"))), "abcde\u{a0}");
}

#[test]
fn splitting_and_joining() {
    assert_eq!(ts(&split_whitespace(&c("  01 ore\t42\u{a0}minuti \n"))), vec!["01", "ore", "42", "minuti"]);
    assert_eq!(split_whitespace(&c(" \t ")).len(), 0);
    assert_eq!(ts(&split(&c("a,b,,c,"), ',')), vec!["a", "b", "", "c", ""]);
    assert_eq!(ts(&split(&c(""), ',')), vec![""]);
    assert_eq!(t(&join(&vec![c("a"), c(""), c("b")], &c(", "))), "a, , b");
    assert_eq!(t(&join(&vec![], &c(", "))), "");
    assert_eq!(t(&join(&vec![c("x")], &c(", "))), "x");
    let (a, b) = split_once(&c("Genere: Dramma: 2"), ':').unwrap();
    assert_eq!((t(&a), t(&b)), ("Genere".to_string(), " Dramma: 2".to_string()));
    assert!(split_once(&c("none"), ':').is_none());
    assert_eq!(t(&take_before(&c("/film/1?d=2"), '?')), "/film/1");
    assert_eq!(t(&take_before(&c("/film/1"), '?')), "/film/1");
    assert_eq!(t(&take_after_last(&c("a/b/c"), '/')), "c");
    assert_eq!(t(&take_after_last(&c("abc"), '/')), "abc");
    assert_eq!(t(&take_after_last(&c("abc/"), '/')), "");
}

#[test]
fn replacing_is_left_to_right_without_overlap() {
    assert_eq!(t(&replace(&c("a<br />b<br/>c"), &c("<br />"), &c("\n"))), "a\nb<br/>c");
    assert_eq!(t(&replace(&c("aaa"), &c("aa"), &c("b"))), "ba");
    assert_eq!(t(&replace(&c("a   b"), &c("  "), &c(" "))), "a  b");
    assert_eq!(t(&replace(&c("Fri,"), &c(","), &c(""))), "Fri");
    assert_eq!(t(&replace(&c("abc"), &c(""), &c("x"))), "abc");
}

#[test]
fn time_tokens_get_a_colon_for_their_first_dot() {
    assert_eq!(t(&replace_first(&c("17.30"), '.', ':')), "17:30");
    assert_eq!(t(&replace_first(&c("22.30"), '.', ':')), "22:30");
    assert_eq!(t(&replace_first(&c("1.2.3"), '.', ':')), "1:2.3");
    assert_eq!(t(&replace_first(&c("17:30"), '.', ':')), "17:30");
    assert_eq!(t(&replace_first(&c(""), '.', ':')), "");
}

#[test]
fn numbers_are_read_as_the_standard_library_reads_them() {
    for s in ["0", "007", "42", "+5", "4294967295", "4294967296", "99999999999999999999", "", "+", "-1", "1 ", " 1", "12a", "++1", "٣"] {
        assert_eq!(parse_u32(&c(s)), s.parse::<u32>().ok());
    }
    assert_eq!(t(&leading_digits(&c("132 min"))), "132");
    assert_eq!(t(&leading_digits(&c("min"))), "");
    assert_eq!(t(&keep_digits(&c("1h 45 min"))), "145");
    for n in [0u32, 7, 10, 99, 100, 4294967295] {
        assert_eq!(t(&u32_to_text(n)), n.to_string());
        assert_eq!(t(&u32_to_text2(n)), format!("{:02}", n));
    }
}

#[test]
fn byte_lengths_are_those_of_utf8() {
    for s in ["", "abc", "Venerdì", "′", "日本語", "😀x"] {
        assert_eq!(len_bytes(&c(s)), s.len() as u128);
    }
}

#[test]
fn running_times_in_words_come_to_minutes() {
    assert_eq!(parse_hours_minutes(&c("01 ore 42 minuti")), Some(102));
    assert_eq!(parse_hours_minutes(&c(" 2 ore 5 min")), Some(125));
    assert_eq!(parse_hours_minutes(&c("1 ora 30 minuti")), Some(30));
    assert_eq!(parse_hours_minutes(&c("90 minuti")), Some(90));
    assert_eq!(parse_hours_minutes(&c("3 ore")), Some(180));
    assert_eq!(parse_hours_minutes(&c("0 ore 0 minuti")), None);
    assert_eq!(parse_hours_minutes(&c("due ore")), None);
    assert_eq!(parse_hours_minutes(&c("")), None);
    assert_eq!(parse_hours_minutes(&c("71582789 ore 0 minuti")), Some(4294967295));
    assert_eq!(parse_hours_minutes(&c("71582788 ore 15 minuti")), Some(4294967295));
    assert_eq!(parse_hours_minutes(&c("71582788 ore 16 minuti")), Some(4294967295));
    assert_eq!(parse_hours_minutes(&c("1 ore 2 ore 3 minuti")), Some(123));
}

#[test]
fn lines_are_cleaned_and_joined() {
    let raw = vec![c("  a "), c("\n\t"), c("b"), c("")];
    assert_eq!(ts(&clean(&raw)), vec!["a", "b"]);
    assert_eq!(ts(&trim_each(&raw)), vec!["a", "", "b", ""]);
    assert_eq!(t(&space_out(&raw)), "a b");
    assert_eq!(t(&compact_text(&raw)), "a \n\tb");
    assert_eq!(t(&space_out(&vec![])), "");
}

#[test]
fn links_are_made_absolute() {
    assert_eq!(t(&make_absolute(&c("http://x/y"), "https://o")), "http://x/y");
    assert_eq!(t(&make_absolute(&c("/y"), "https://o")), "https://o/y");
    assert_eq!(t(&make_absolute(&c("y"), "https://o")), "https://o/y");
    assert_eq!(t(&make_absolute(&c(""), "https://o")), "https://o/");
    assert_eq!(t(&make_prefixed(&c("/y"), "https://o")), "https://o/y");
    assert_eq!(t(&make_prefixed(&c("y"), "https://o")), "https://oy");
    assert_eq!(t(&make_prefixed(&c("https://x"), "https://o")), "https://x");
}

#[test]
fn parts_of_a_text() {
    assert_eq!(t(&slice(&c("abcdef"), 1, 4)), "bcd");
    assert_eq!(t(&slice(&c("abc"), 0, 3)), "abc");
    assert_eq!(t(&slice(&c("abc"), 2, 2)), "");
    assert_eq!(t(&slice(&c("abc"), 2, 1)), "");
    assert_eq!(t(&slice(&c("abc"), 1, 4)), "");
}
