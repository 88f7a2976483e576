use cinema_scrape::cinema_edera::is_label_of_data as edera_label;
use cinema_scrape::cinema_padova::slug_lowered;
use cinema_scrape::cinemazero::{
    is_label_of_data, is_plot_text, is_schedule_heading, is_today_heading, place_of_cast,
    place_of_label, read_minutes_under, take_real_entry, take_unless_label, Place,
};
use cinema_scrape::enrico_pizzuti::is_club_name;
use cinema_scrape::rassegne::{is_side_label, read_duration_under, read_value_under};

fn c(s: &str) -> Vec<char> {
    s.chars().collect()
}

fn t(v: Vec<char>) -> String {
    v.iter().collect()
}

#[test]
fn slug_of_a_lowered_title() {
    assert_eq!(t(slug_lowered(&c("la grazia"))), "la_grazia");
    assert_eq!(t(slug_lowered(&c("città d'oro 2!"))), "citt__d_oro_2_");
    assert_eq!(t(slug_lowered(&c("Not Lowered"))), "Not_Lowered");
    assert_eq!(t(slug_lowered(&c(""))), "");
}

#[test]
fn labels_of_a_film_page_in_lower_case() {
    assert!(is_label_of_data(&c("genere")));
    assert!(is_label_of_data(&c("regia di qualcuno")));
    assert!(is_label_of_data(&c("cast ")));
    assert!(!is_label_of_data(&c("castello")));
    assert!(!is_label_of_data(&c("genere:")));
    assert!(!is_label_of_data(&c("Genere")));
    assert!(is_schedule_heading(&c("la programmazione e orari di oggi")));
    assert!(!is_schedule_heading(&c("programmazione")));
    assert!(is_today_heading(&c("oggi al cinema zero")));
    assert!(!is_today_heading(&c("e oggi al cinema")));
}

#[test]
fn where_a_line_stands_to_a_label() {
    assert_eq!(place_of_label(&c("regia"), "regia"), Place::Alone);
    assert_eq!(place_of_label(&c("regia paolo"), "regia"), Place::Beside);
    assert_eq!(place_of_label(&c("regia: paolo"), "regia"), Place::Apart);
    assert_eq!(place_of_label(&c("la regia"), "regia"), Place::Apart);
    assert_eq!(place_of_cast(&c("Cast"), &c("cast")), Place::Alone);
    assert_eq!(place_of_cast(&c("Cast: A, B"), &c("cast: a, b")), Place::Beside);
    assert_eq!(place_of_cast(&c("Caste"), &c("caste")), Place::Beside);
    assert_eq!(place_of_cast(&c("Cas"), &c("cas")), Place::Apart);
    assert_eq!(take_unless_label(c("Drammatico"), &c("drammatico"), "regia").map(t), Some("Drammatico".to_string()));
    assert_eq!(take_unless_label(c("Regia"), &c("regia"), "regia"), None);
    assert_eq!(take_unless_label(c(""), &c(""), "regia"), None);
}

#[test]
fn plots_minutes_and_entries_given_the_lowered_text() {
    let long = "Una frase lunga che racconta la trama del film con abbastanza parole per superare la soglia. Davvero.";
    assert!(is_plot_text(&c(long), &c(&long.to_lowercase())));
    assert!(!is_plot_text(&c(long), &c("la regia è nota. ma il testo in minuscolo qui è un altro")));
    assert!(!is_plot_text(&c("Breve."), &c("breve.")));
    assert!(!is_plot_text(&c(long), &c("senza punto")));
    assert_eq!(read_minutes_under(&c("133 Min"), &c("133 min")), Some(133));
    assert_eq!(read_minutes_under(&c("90 M"), &c("90 m")), Some(90));
    assert_eq!(read_minutes_under(&c("133 Min"), &c("133 MIN")), None);
    assert_eq!(read_minutes_under(&c("circa 90 min"), &c("circa 90 min")), None);
    assert_eq!(read_minutes_under(&c(""), &c(" m")), None);
    assert_eq!(take_real_entry(c("10 Mar 16:00"), &c("10 mar 16:00")).map(t), Some("10 Mar 16:00".to_string()));
    assert_eq!(take_real_entry(c("2025 In Secolare:"), &c("2025 in secolare:")), None);
}

#[test]
fn cristallo_labels_given_the_lowered_line() {
    assert!(is_side_label(&c("data uscita: 2025")));
    assert!(is_side_label(&c("durata")));
    assert!(is_side_label(&c("genere: x")));
    assert!(!is_side_label(&c("vermiglio")));
    assert!(!is_side_label(&c("Durata: 1 ora")));
    assert_eq!(read_value_under(&c("Genere:  Dramma "), &c("genere:  dramma "), "genere").map(t), Some("Dramma".to_string()));
    assert_eq!(read_value_under(&c("Genere: Dramma"), &c("GENERE: DRAMMA"), "genere"), None);
    assert_eq!(read_value_under(&c("Genere"), &c("genere"), "genere"), None);
    assert_eq!(read_value_under(&c("Genere: "), &c("genere: "), "genere"), None);
    assert_eq!(read_duration_under(&c("Durata: 01 ore 42 minuti"), &c("durata: 01 ore 42 minuti")), Some(102));
    assert_eq!(read_duration_under(&c("Durata: 01 ore 42 minuti"), &c("altro")), None);
    assert_eq!(read_duration_under(&c("Durata 90 minuti"), &c("durata 90 minuti")), None);
}

#[test]
fn other_labels_given_the_lowered_text() {
    assert!(edera_label(&c("genere drammatico")));
    assert!(edera_label(&c("paese")));
    assert!(edera_label(&c("lingua originale")));
    assert!(edera_label(&c("gli orari spettacoli di oggi")));
    assert!(!edera_label(&c("importante")));
    assert!(!edera_label(&c("Anno 2025")));
    assert!(is_club_name(&vec![c("cineforum"), c("2026")]));
    assert!(is_club_name(&vec![c("il"), c("nostro cineforum")]));
    assert!(!is_club_name(&vec![c("cine"), c("forum")]));
    assert!(!is_club_name(&vec![c("Cineforum")]));
    assert!(!is_club_name(&vec![]));
}
