use cinema_scrape::crawl::CinemaScraper;
use cinema_scrape::film::Film;
use cinema_scrape::new_bev::{load, parse_program_page, parse_schedule, NewBevScraper};

const SCHEDULE: &str = r#"<html><body>
<article class="event-card"><a href="/program/zulu/"><figure class="event-card__img"><img src="/img/z.jpg"></figure>
 <h4 class="event-card__title"> Zulu  /  <i>Zardoz</i></h4>
 <span class="event-card__day">Fri,</span><span class="event-card__month">Feb</span><span class="event-card__numb">13</span>
 <time class="event-card__time">7:30 pm</time><time class="event-card__time"> 9:45 pm </time></a></article>
<article class="event-card"><a href="https://thenewbev.com/program/alien"><h4 class="event-card__title">Alien</h4>
 <span class="event-card__day">Sat,</span><span class="event-card__month">Feb</span><span class="event-card__numb">14</span></a></article>
<article class="event-card"><a href="/program/zulu"><h4 class="event-card__title">Zulu again</h4>
 <span class="event-card__day">Sun,</span><span class="event-card__month">Feb</span><span class="event-card__numb">15</span>
 <time class="event-card__time">2:00 pm</time></a></article>
<article class="event-card"><a href="/program/none/"><span class="event-card__day">Mon</span></a></article>
<article class="event-card"><a href="https://elsewhere.com/program/x"><h4 class="event-card__title">Elsewhere</h4></a></article>
<article class="event-card"><a href="/about/"><h4 class="event-card__title">About</h4></a></article>
</body></html>"#;

#[test]
fn new_bev_schedule_gives_one_entry_per_card() {
    let entries = parse_schedule(&load(SCHEDULE));
    let got: Vec<(String, String, Vec<String>)> =
        entries.iter().map(|f| (f.url.clone(), f.title.clone(), f.showtimes.clone().unwrap())).collect();
    assert_eq!(
        got,
        vec![
            ("https://thenewbev.com/program/zulu".to_string(), "Zulu / Zardoz".to_string(), vec!["Fri Feb 13 - 7:30 pm / 9:45 pm".to_string()]),
            ("https://thenewbev.com/program/alien".to_string(), "Alien".to_string(), vec!["Sat Feb 14".to_string()]),
            ("https://thenewbev.com/program/zulu".to_string(), "Zulu again".to_string(), vec!["Sun Feb 15 - 2:00 pm".to_string()]),
        ]
    );
    assert_eq!(entries[0].poster_url, Some("https://thenewbev.com/img/z.jpg".to_string()));
}

#[test]
fn new_bev_programmes_gather_their_showtimes() {
    let scraper = NewBevScraper::new();
    let planned = scraper.plan(SCHEDULE);
    assert_eq!(planned.len(), 2);
    assert_eq!(planned[0].url, "https://thenewbev.com/program/alien");
    assert_eq!(planned[1].url, "https://thenewbev.com/program/zulu");
    assert_eq!(planned[1].title, "Zulu / Zardoz");
    assert_eq!(planned[1].showtimes, Some(vec!["Fri Feb 13 - 7:30 pm / 9:45 pm".to_string(), "Sun Feb 15 - 2:00 pm".to_string()]));
    assert_eq!(scraper.listing().url, "https://thenewbev.com/schedule/");
    assert_eq!(scraper.rss_filename(), "docs/feeds/tarantino.xml");
}

const PROGRAM: &str = r#"<html><head><meta property="og:image" content=" "></head><body>
<div class="movie__poster"><img src="/img/alien.jpg"></div>
<dl><dt>Director</dt><dd> Ridley Scott </dd></dl><dl><dt>running time</dt><dd>117 min.</dd></dl>
<dl><dt>Studio</dt><dd>Fox</dd></dl><dl><dt>YEAR</dt><dd>1979</dd></dl><dl><dt>Format</dt><dd></dd></dl>
<div class="movie__content"><p>Buy Tickets</p>
<p>In space no one can hear you scream, and the crew of the Nostromo learns it the hard way.</p>
<p>Read more on the New Beverly blog about this very special screening of the film.</p>
<p>Tickets at ticketing.example.com for everyone who wants to come and see this classic.</p></div>
<div class="entry-content"><p>This paragraph stands in another place and is only used when the first place has nothing.</p></div>
</body></html>"#;

#[test]
fn new_bev_programme_page_adds_to_the_candidate() {
    let mut candidate = Film::bare("Alien".to_string(), "https://thenewbev.com/program/alien".to_string());
    candidate.showtimes = Some(vec!["Sat Feb 14".to_string()]);
    candidate.poster_url = Some("card.jpg".to_string());
    let film = parse_program_page(&candidate, &load(PROGRAM));
    assert_eq!(film.title, "Alien");
    assert_eq!(film.poster_url, Some("https://thenewbev.com/img/alien.jpg".to_string()));
    assert_eq!(film.running_time, Some(117));
    assert_eq!(film.cast, Some("Director: Ridley Scott | YEAR: 1979".to_string()));
    assert_eq!(
        film.synopsis,
        Some("In space no one can hear you scream, and the crew of the Nostromo learns it the hard way.".to_string())
    );
    assert_eq!(film.showtimes, Some(vec!["Sat Feb 14".to_string()]));
    let plain = parse_program_page(&candidate, &load("<html></html>"));
    assert_eq!(plain.poster_url, Some("card.jpg".to_string()));
    assert_eq!(plain.cast, None);
    assert_eq!(plain.synopsis, None);
    assert_eq!(plain.running_time, None);
}
