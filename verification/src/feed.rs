//! Feed assembly: one entry per film record, with a description block put
//! together from the fields that the record has.

use crate::film::{films_view, strings_view, Film, FilmView};
use crate::gather::one_if;
use crate::number::{decimal, u32_to_text};
use crate::text::{chars_of, concat, contains, occurs_in, string_of, views};
use crate::tokens::{join, joined};
use chrono::Utc;
use rss::{Category, ChannelBuilder, Guid, Item, ItemBuilder};
use vstd::prelude::*;
use vstd::utf8::{decode_utf8, valid_utf8};

verus! {

/// One entry of a feed.
#[derive(Debug, Clone)]
pub struct FeedItem {
    pub title: String,
    pub link: String,
    pub description: String,
    /// The entry's permanent identifier.
    pub guid: String,
    /// Whether the identifier is also the entry's address.
    pub permalink: bool,
    pub pub_date: Option<String>,
    /// The venue, in a feed that merges several.
    pub category: Option<String>,
}

/// The mathematical content of a `FeedItem`.
pub ghost struct FeedItemView {
    pub title: Seq<char>,
    pub link: Seq<char>,
    pub description: Seq<char>,
    pub guid: Seq<char>,
    pub permalink: bool,
    pub pub_date: Option<Seq<char>>,
    pub category: Option<Seq<char>>,
}

impl View for FeedItem {
    type V = FeedItemView;

    open spec fn view(&self) -> FeedItemView {
        FeedItemView {
            title: self.title@,
            link: self.link@,
            description: self.description@,
            guid: self.guid@,
            permalink: self.permalink,
            pub_date: crate::film::opt_view(self.pub_date),
            category: crate::film::opt_view(self.category),
        }
    }
}

/// The contents of a list of feed entries.
pub open spec fn items_view(v: Seq<FeedItem>) -> Seq<FeedItemView> {
    Seq::new(v.len(), |i: int| v[i]@)
}

/// Why a feed document could not be produced.
#[derive(Debug, Clone, Copy, PartialEq, Eq)]
pub enum FeedError {
    /// The channel could not be written out.
    Render,
    /// What was written out is not UTF-8.
    Encoding,
}

/// The fragment that names the cast.
pub open spec fn cast_part(f: FilmView) -> Option<Seq<char>> {
    match f.cast {
        Some(c) => Some("Cast: "@ + c),
        None => None,
    }
}

/// The fragment that gives the date.
pub open spec fn date_part(f: FilmView) -> Option<Seq<char>> {
    match f.release_date {
        Some(d) => Some("Data: "@ + d),
        None => None,
    }
}

/// The fragment that gives the running time.
pub open spec fn duration_part(f: FilmView) -> Option<Seq<char>> {
    match f.running_time {
        Some(n) => Some("Durata: "@ + decimal(n as nat) + " minuti"@),
        None => None,
    }
}

/// The fragment that shows the poster.
pub open spec fn poster_part(f: FilmView) -> Option<Seq<char>> {
    match f.poster_url {
        Some(p) => Some("<img src=\""@ + p + "\" alt=\"Poster\" />"@),
        None => None,
    }
}

/// The fragment that is the synopsis, where it has any text.
pub open spec fn synopsis_part(f: FilmView) -> Option<Seq<char>> {
    match f.synopsis {
        Some(s) => if s.len() > 0 {
            Some(s)
        } else {
            None
        },
        None => None,
    }
}

/// The fragment that lists the showtimes, where there is any.
pub open spec fn showtimes_part(f: FilmView) -> Option<Seq<char>> {
    match f.showtimes {
        Some(v) => if v.len() > 0 {
            Some("Orari: "@ + joined(v, ", "@))
        } else {
            None
        },
        None => None,
    }
}

/// The fragments of a description, in their fixed order: synopsis, cast,
/// date, duration, poster, showtimes; a fragment whose field is absent is
/// left out, and so is a synopsis without text.
pub open spec fn description_parts(f: FilmView) -> Seq<Seq<char>> {
    one_if(synopsis_part(f)) + one_if(cast_part(f)) + one_if(date_part(f)) + one_if(duration_part(f))
        + one_if(poster_part(f)) + one_if(showtimes_part(f))
}

/// The description of a film: its fragments on lines of their own, or a
/// placeholder with the title where it has none.
pub open spec fn description_of(f: FilmView) -> Seq<char> {
    let parts = description_parts(f);
    if parts.len() == 0 {
        "Film: "@ + f.title
    } else {
        joined(parts, "<br/>\n"@)
    }
}

/// The date phrase names one of the months that the feed recognises.
pub open spec fn names_month(date: Seq<char>) -> bool {
    occurs_in(date, "Febbraio"@) || occurs_in(date, "Gennaio"@) || occurs_in(date, "Marzo"@)
}

/// The publish date of a film's entry: the moment of the run, and only
/// where the release date names a recognised month.
pub open spec fn pub_date_of(f: FilmView, now: Seq<char>) -> Option<Seq<char>> {
    match f.release_date {
        Some(d) => if names_month(d) {
            Some(now)
        } else {
            None
        },
        None => None,
    }
}

/// The feed entry of a film.
pub open spec fn item_of(f: FilmView, now: Seq<char>, category: Option<Seq<char>>) -> FeedItemView {
    FeedItemView {
        title: f.title,
        link: f.url,
        description: description_of(f),
        guid: f.url,
        permalink: true,
        pub_date: pub_date_of(f, now),
        category,
    }
}

/// The feed entries of a list of films, one each, in order.
pub open spec fn items_of(
    films: Seq<FilmView>,
    now: Seq<char>,
    category: Option<Seq<char>>,
) -> Seq<FeedItemView> {
    Seq::new(films.len(), |i: int| item_of(films[i], now, category))
}

fn push_part(parts: &mut Vec<Vec<char>>, part: Vec<char>)
    ensures
        views(final(parts)@) == views(old(parts)@) + seq![part@],
{
    parts.push(part);
    assert(views(parts@) =~= views(old(parts)@) + seq![part@]);
}

fn labelled(label: &str, value: &str) -> (out: Vec<char>)
    ensures
        out@ == label@ + value@,
{
    concat(&chars_of(label), &chars_of(value))
}

/// The texts of a list of strings.
pub fn texts_of(v: &Vec<String>) -> (out: Vec<Vec<char>>)
    ensures
        views(out@) == strings_view(v@),
{
    let mut out: Vec<Vec<char>> = Vec::new();
    let mut i: usize = 0;
    while i < v.len()
        invariant
            i <= v.len(),
            out@.len() == i,
            forall|j: int| 0 <= j < i ==> (#[trigger] out@[j])@ == v@[j]@,
        decreases v.len() - i,
    {
        out.push(chars_of(v[i].as_str()));
        i += 1;
    }
    assert(views(out@) =~= strings_view(v@));
    out
}

/// The description block of a film's feed entry.
pub fn film_description(film: &Film) -> (out: String)
    ensures
        out@ == description_of(film@),
{
    let mut parts: Vec<Vec<char>> = Vec::new();
    assert(views(parts@) =~= Seq::<Seq<char>>::empty());
    if let Some(synopsis) = &film.synopsis {
        let text = chars_of(synopsis.as_str());
        if text.len() > 0 {
            push_part(&mut parts, text);
        }
    }
    assert(views(parts@) =~= one_if(synopsis_part(film@)));
    if let Some(cast) = &film.cast {
        push_part(&mut parts, labelled("Cast: ", cast.as_str()));
    }
    assert(views(parts@) =~= one_if(synopsis_part(film@)) + one_if(cast_part(film@)));
    if let Some(date) = &film.release_date {
        push_part(&mut parts, labelled("Data: ", date.as_str()));
    }
    assert(views(parts@) =~= one_if(synopsis_part(film@)) + one_if(cast_part(film@)) + one_if(
        date_part(film@),
    ));
    if let Some(minutes) = film.running_time {
        let head = concat(&chars_of("Durata: "), &u32_to_text(minutes));
        push_part(&mut parts, concat(&head, &chars_of(" minuti")));
    }
    assert(views(parts@) =~= one_if(synopsis_part(film@)) + one_if(cast_part(film@)) + one_if(
        date_part(film@),
    ) + one_if(duration_part(film@)));
    if let Some(poster) = &film.poster_url {
        let head = labelled("<img src=\"", poster.as_str());
        push_part(&mut parts, concat(&head, &chars_of("\" alt=\"Poster\" />")));
    }
    assert(views(parts@) =~= one_if(synopsis_part(film@)) + one_if(cast_part(film@)) + one_if(
        date_part(film@),
    ) + one_if(duration_part(film@)) + one_if(poster_part(film@)));
    if let Some(showtimes) = &film.showtimes {
        if showtimes.len() > 0 {
            let times = join(&texts_of(showtimes), &chars_of(", "));
            push_part(&mut parts, concat(&chars_of("Orari: "), &times));
        }
    }
    assert(views(parts@) =~= description_parts(film@));
    if parts.len() == 0 {
        string_of(&labelled("Film: ", film.title.as_str()))
    } else {
        string_of(&join(&parts, &chars_of("<br/>\n")))
    }
}

/// Whether a date phrase names a month that the feed recognises.
pub fn date_names_month(date: &str) -> (r: bool)
    ensures
        r == names_month(date@),
{
    let d = chars_of(date);
    contains(&d, &chars_of("Febbraio")) || contains(&d, &chars_of("Gennaio")) || contains(
        &d,
        &chars_of("Marzo"),
    )
}

/// The description of a film's feed entry and its publish date, where
/// `now` is the moment of the run as the feed writes dates.
pub fn film_description_and_pub_date(film: &Film, now: &str) -> (r: (String, Option<String>))
    ensures
        r.0@ == description_of(film@),
        crate::film::opt_view(r.1) == pub_date_of(film@, now@),
{
    let description = film_description(film);
    let pub_date = match &film.release_date {
        Some(date) => if date_names_month(date.as_str()) {
            Some(now.to_owned())
        } else {
            None
        },
        None => None,
    };
    (description, pub_date)
}

/// The feed entry of one film; `category` is the venue's name in a merged feed.
pub fn feed_item(film: &Film, now: &str, category: Option<&str>) -> (item: FeedItem)
    ensures
        item@ == item_of(
            film@,
            now@,
            match category {
                Some(c) => Some(c@),
                None => None,
            },
        ),
{
    let (description, pub_date) = film_description_and_pub_date(film, now);
    FeedItem {
        title: film.title.clone(),
        link: film.url.clone(),
        description,
        guid: film.url.clone(),
        permalink: true,
        pub_date,
        category: match category {
            Some(c) => Some(c.to_owned()),
            None => None,
        },
    }
}

/// Appends the entries of `films`, in order, to `items`.
fn push_items(items: &mut Vec<FeedItem>, films: &[Film], now: &str, category: Option<&str>)
    ensures
        items_view(final(items)@) == items_view(old(items)@) + items_of(
            films_view(films@),
            now@,
            match category {
                Some(c) => Some(c@),
                None => None,
            },
        ),
{
    let ghost cat = match category {
        Some(c) => Some(c@),
        None => None,
    };
    let ghost all = items_of(films_view(films@), now@, cat);
    let mut i: usize = 0;
    assert(items_view(items@) =~= items_view(old(items)@) + all.take(0));
    while i < films.len()
        invariant
            i <= films.len(),
            all == items_of(films_view(films@), now@, cat),
            cat == match category {
                Some(c) => Some(c@),
                None => None,
            },
            items_view(items@) == items_view(old(items)@) + all.take(i as int),
        decreases films.len() - i,
    {
        let ghost before = items_view(items@);
        let item = feed_item(&films[i], now, category);
        items.push(item);
        proof {
            assert(items_view(items@) =~= before.push(item@));
            assert(all.take(i + 1) =~= all.take(i as int).push(item@));
            assert(items_view(items@) =~= items_view(old(items)@) + all.take(i + 1));
        }
        i += 1;
    }
    proof {
        assert(all.take(films.len() as int) == all);
    }
}

/// The entries of a single venue's feed.
pub fn feed_items(films: &[Film], now: &str) -> (items: Vec<FeedItem>)
    ensures
        items_view(items@) == items_of(films_view(films@), now@, None),
{
    let mut items: Vec<FeedItem> = Vec::new();
    push_items(&mut items, films, now, None);
    assert(items_view(items@) =~= items_of(films_view(films@), now@, None));
    items
}

/// The names and film lists of the venues of a merged feed.
pub open spec fn sources_view(sources: Seq<(&str, &[Film])>) -> Seq<(Seq<char>, Seq<FilmView>)> {
    Seq::new(sources.len(), |i: int| (sources[i].0@, films_view(sources[i].1@)))
}

/// The entries of a merged feed: venue after venue, each venue's films in
/// order, every entry labelled with its venue.
pub open spec fn merged_items_of(
    sources: Seq<(Seq<char>, Seq<FilmView>)>,
    now: Seq<char>,
) -> Seq<FeedItemView>
    decreases sources.len(),
{
    if sources.len() == 0 {
        Seq::empty()
    } else {
        merged_items_of(sources.drop_last(), now) + items_of(
            sources.last().1,
            now,
            Some(sources.last().0),
        )
    }
}

/// The entries of a feed that merges several venues.
pub fn merged_feed_items(sources: &[(&str, &[Film])], now: &str) -> (items: Vec<FeedItem>)
    ensures
        items_view(items@) == merged_items_of(sources_view(sources@), now@),
{
    let mut items: Vec<FeedItem> = Vec::new();
    let mut i: usize = 0;
    assert(items_view(items@) =~= merged_items_of(sources_view(sources@).take(0), now@));
    while i < sources.len()
        invariant
            i <= sources.len(),
            items_view(items@) == merged_items_of(sources_view(sources@).take(i as int), now@),
        decreases sources.len() - i,
    {
        proof {
            assert(sources_view(sources@).take(i + 1).drop_last() == sources_view(sources@).take(
                i as int,
            ));
            assert(sources_view(sources@).take(i + 1).last() == sources_view(sources@)[i as int]);
        }
        let (name, films) = sources[i];
        push_items(&mut items, films, now, Some(name));
        i += 1;
    }
    proof {
        assert(sources_view(sources@).take(sources.len() as int) == sources_view(sources@));
    }
    items
}

/// `rss::Error`, carried through as it comes.
#[verifier::external_type_specification]
#[verifier::external_body]
pub struct ExRssError(rss::Error);

/// The bytes of the RSS document of a channel with the given title, link,
/// description and entries; `None` where the document cannot be written.
pub uninterp spec fn channel_xml(
    title: Seq<char>,
    link: Seq<char>,
    description: Seq<char>,
    items: Seq<FeedItemView>,
) -> Option<Seq<u8>>;

/// `rss::ChannelBuilder` and `rss::Channel::write_to`: builds a channel
/// whose items carry each entry's title, link, description, permalink GUID,
/// publish date and category, and serialises it. The contract only names
/// the bytes that come out.
#[verifier::external_body]
fn write_channel(title: &str, link: &str, description: &str, items: &Vec<FeedItem>) -> (r: Result<
    Vec<u8>,
    rss::Error,
>)
    ensures
        match r {
            Ok(bytes) => channel_xml(title@, link@, description@, items_view(items@)) == Some(
                bytes@,
            ),
            Err(_) => channel_xml(title@, link@, description@, items_view(items@)) is None,
        },
{
    let items: Vec<Item> = items.iter().map(|i| ItemBuilder::default()
        .title(i.title.clone())
        .link(i.link.clone())
        .description(i.description.clone())
        .guid(Guid { value: i.guid.clone(), permalink: i.permalink })
        .pub_date(i.pub_date.clone())
        .categories(i.category.iter().map(|c| Category::from(c.as_str())).collect::<Vec<_>>())
        .build()).collect();
    ChannelBuilder::default().title(title).link(link).description(description).items(items)
        .build().write_to(Vec::new())
}

/// `String::from_utf8`: the string that the bytes encode, where they are UTF-8.
#[verifier::external_body]
fn utf8_string(bytes: Vec<u8>) -> (r: Option<String>)
    ensures
        r is Some <==> valid_utf8(bytes@),
        r is Some ==> r->0@ == decode_utf8(bytes@),
{
    String::from_utf8(bytes).ok()
}

/// `chrono::Utc::now` and `DateTime::to_rfc2822`: the present moment as
/// feeds write dates. Nothing is claimed of it. (The format has four digits
/// for the year; a clock set beyond them is not provided for.)
#[verifier::external_body]
fn now_rfc2822() -> String {
    Utc::now().to_rfc2822()
}

/// Whether `r` is the outcome of serialising `items` under the given channel header.
pub open spec fn is_document(
    r: Result<String, FeedError>,
    title: Seq<char>,
    link: Seq<char>,
    description: Seq<char>,
    items: Seq<FeedItemView>,
) -> bool {
    match channel_xml(title, link, description, items) {
        None => r == Err::<String, FeedError>(FeedError::Render),
        Some(bytes) => if valid_utf8(bytes) {
            r is Ok && r->Ok_0@ == decode_utf8(bytes)
        } else {
            r == Err::<String, FeedError>(FeedError::Encoding)
        },
    }
}

/// Serialises a channel with the given entries.
pub fn render_feed(
    channel_title: &str,
    channel_link: &str,
    channel_description: &str,
    items: &Vec<FeedItem>,
) -> (r: Result<String, FeedError>)
    ensures
        is_document(r, channel_title@, channel_link@, channel_description@, items_view(items@)),
{
    match write_channel(channel_title, channel_link, channel_description, items) {
        Ok(bytes) => match utf8_string(bytes) {
            Some(text) => Ok(text),
            None => Err(FeedError::Encoding),
        },
        Err(_) => Err(FeedError::Render),
    }
}

/// The feed of a single venue, dated `now`.
pub fn generate_rss_at(
    films: &[Film],
    channel_title: &str,
    channel_link: &str,
    channel_description: &str,
    now: &str,
) -> (r: Result<String, FeedError>)
    ensures
        is_document(
            r,
            channel_title@,
            channel_link@,
            channel_description@,
            items_of(films_view(films@), now@, None),
        ),
{
    let items = feed_items(films, now);
    render_feed(channel_title, channel_link, channel_description, &items)
}

/// The feed of a single venue, dated by the clock: some moment `now` exists
/// for which it is the feed that `generate_rss_at` gives.
pub fn generate_rss(
    films: &[Film],
    channel_title: &str,
    channel_link: &str,
    channel_description: &str,
) -> (r: Result<String, FeedError>)
    ensures
        exists|now: Seq<char>|
            is_document(
                r,
                channel_title@,
                channel_link@,
                channel_description@,
                #[trigger] items_of(films_view(films@), now, None),
            ),
{
    let now = now_rfc2822();
    generate_rss_at(films, channel_title, channel_link, channel_description, now.as_str())
}

/// The merged feed of several venues, dated `now`.
pub fn generate_rss_merged_at(
    channel_title: &str,
    channel_link: &str,
    channel_description: &str,
    sources: &[(&str, &[Film])],
    now: &str,
) -> (r: Result<String, FeedError>)
    ensures
        is_document(
            r,
            channel_title@,
            channel_link@,
            channel_description@,
            merged_items_of(sources_view(sources@), now@),
        ),
{
    let items = merged_feed_items(sources, now);
    render_feed(channel_title, channel_link, channel_description, &items)
}

/// The merged feed of several venues, dated by the clock.
pub fn generate_rss_merged(
    channel_title: &str,
    channel_link: &str,
    channel_description: &str,
    sources: &[(&str, &[Film])],
) -> (r: Result<String, FeedError>)
    ensures
        exists|now: Seq<char>|
            is_document(
                r,
                channel_title@,
                channel_link@,
                channel_description@,
                #[trigger] merged_items_of(sources_view(sources@), now),
            ),
{
    let now = now_rfc2822();
    generate_rss_merged_at(
        channel_title,
        channel_link,
        channel_description,
        sources,
        now.as_str(),
    )
}

/// What stands between two fragments of a description.
pub open spec fn line_break() -> Seq<char> {
    "<br/>\n"@
}

/// A record with every field gives an entry that is identified by the
/// record's address and whose description holds, on lines of their own
/// and in this order: synopsis, cast, date, duration, poster, showtimes.
pub proof fn lemma_entry_of_full_record(f: FilmView, now: Seq<char>, category: Option<Seq<char>>)
    requires
        f.synopsis is Some,
        f.synopsis->0.len() > 0,
        f.cast is Some,
        f.release_date is Some,
        f.running_time is Some,
        f.poster_url is Some,
        f.showtimes is Some,
        f.showtimes->0.len() > 0,
    ensures
        item_of(f, now, category).guid == f.url,
        item_of(f, now, category).description == f.synopsis->0 + line_break() + ("Cast: "@
            + f.cast->0) + line_break() + ("Data: "@ + f.release_date->0) + line_break() + (
        "Durata: "@ + decimal(f.running_time->0 as nat) + " minuti"@) + line_break() + (
        "<img src=\""@ + f.poster_url->0 + "\" alt=\"Poster\" />"@) + line_break() + ("Orari: "@
            + joined(f.showtimes->0, ", "@)),
{
    let parts = description_parts(f);
    let a = f.synopsis->0;
    let b = "Cast: "@ + f.cast->0;
    let c = "Data: "@ + f.release_date->0;
    let d = "Durata: "@ + decimal(f.running_time->0 as nat) + " minuti"@;
    let e = "<img src=\""@ + f.poster_url->0 + "\" alt=\"Poster\" />"@;
    let g = "Orari: "@ + joined(f.showtimes->0, ", "@);
    assert(parts =~= seq![a, b, c, d, e, g]);
    let sep = line_break();
    let first = seq![a];
    let second = seq![a, b];
    let third = seq![a, b, c];
    let fourth = seq![a, b, c, d];
    let fifth = seq![a, b, c, d, e];
    let sixth = seq![a, b, c, d, e, g];
    assert(sixth.drop_last() =~= fifth);
    assert(fifth.drop_last() =~= fourth);
    assert(fourth.drop_last() =~= third);
    assert(third.drop_last() =~= second);
    assert(second.drop_last() =~= first);
    assert(joined(first, sep) == a);
    assert(joined(second, sep) == joined(first, sep) + sep + b);
    assert(joined(third, sep) == joined(second, sep) + sep + c);
    assert(joined(fourth, sep) == joined(third, sep) + sep + d);
    assert(joined(fifth, sep) == joined(fourth, sep) + sep + e);
    assert(joined(sixth, sep) == joined(fifth, sep) + sep + g);
}

/// A record without any optional field gives an entry whose description
/// is the placeholder with its title.
pub proof fn lemma_entry_of_bare_record(f: FilmView, now: Seq<char>, category: Option<Seq<char>>)
    requires
        f.synopsis is None || f.synopsis->0.len() == 0,
        f.cast is None,
        f.release_date is None,
        f.running_time is None,
        f.poster_url is None,
        f.showtimes is None || f.showtimes->0.len() == 0,
    ensures
        item_of(f, now, category).guid == f.url,
        item_of(f, now, category).description == "Film: "@ + f.title,
        item_of(f, now, category).pub_date is None,
{
    assert(description_parts(f) =~= Seq::<Seq<char>>::empty());
}

/// No entry is ever empty: the description of every record has text.
pub proof fn lemma_description_has_text(f: FilmView)
    ensures
        description_of(f).len() > 0,
{
    reveal_strlit("Film: ");
    reveal_strlit("Cast: ");
    reveal_strlit("Data: ");
    reveal_strlit("Durata: ");
    reveal_strlit("<img src=\"");
    reveal_strlit("Orari: ");
    let parts = description_parts(f);
    if parts.len() > 0 {
        let a = one_if(synopsis_part(f));
        let b = one_if(cast_part(f));
        let c = one_if(date_part(f));
        let d = one_if(duration_part(f));
        let e = one_if(poster_part(f));
        let g = one_if(showtimes_part(f));
        assert(parts == a + b + c + d + e + g);
        let last = parts.last();
        assert(last.len() > 0) by {
            if g.len() > 0 {
                assert(last == g[0]);
            } else if e.len() > 0 {
                assert(parts =~= a + b + c + d + e);
                assert(last == e[0]);
            } else if d.len() > 0 {
                assert(parts =~= a + b + c + d);
                assert(last == d[0]);
            } else if c.len() > 0 {
                assert(parts =~= a + b + c);
                assert(last == c[0]);
            } else if b.len() > 0 {
                assert(parts =~= a + b);
                assert(last == b[0]);
            } else {
                assert(parts =~= a);
                assert(last == a[0]);
            }
        }
        let sep = "<br/>\n"@;
        if parts.len() > 1 {
            assert(joined(parts, sep) == joined(parts.drop_last(), sep) + sep + last);
        }
    }
}

} // verus!
