//! Candidate discovery: from the addresses that a listing page links to,
//! the addresses to visit. Each candidate carries a canonical key; the
//! result holds one address per key, in ascending order of the keys, so
//! that the same page always yields the same visits.

use crate::order::{
    less, lemma_lex_asymmetric, lemma_lex_irreflexive, lemma_lex_total, lemma_lex_transitive,
    lex_less,
};
use crate::film::{films_view, Film, FilmView};
use crate::text::{copy, same, string_of, views};
use vstd::prelude::*;

verus! {

/// An address to visit, with the key under which it counts as visited.
#[derive(Debug)]
pub struct Candidate {
    pub key: Vec<char>,
    pub url: Vec<char>,
}

/// The mathematical content of a `Candidate`.
pub ghost struct CandidateView {
    pub key: Seq<char>,
    pub url: Seq<char>,
}

impl View for Candidate {
    type V = CandidateView;

    open spec fn view(&self) -> CandidateView {
        CandidateView { key: self.key@, url: self.url@ }
    }
}

/// The contents of a list of candidates.
pub open spec fn candidates_view(v: Seq<Candidate>) -> Seq<CandidateView> {
    Seq::new(v.len(), |i: int| v[i]@)
}

/// `list`, ascending by key, with `item` put in its place; a list that
/// already holds the key stays as it is.
pub open spec fn inserted(list: Seq<CandidateView>, item: CandidateView) -> Seq<CandidateView>
    decreases list.len(),
{
    if list.len() == 0 {
        seq![item]
    } else if lex_less(list[0].key, item.key) {
        seq![list[0]] + inserted(list.drop_first(), item)
    } else if list[0].key == item.key {
        list
    } else {
        seq![item] + list
    }
}

/// The candidates to visit: the first candidate of each key, ascending by key.
pub open spec fn discovered(items: Seq<CandidateView>) -> Seq<CandidateView>
    decreases items.len(),
{
    if items.len() == 0 {
        Seq::empty()
    } else {
        inserted(discovered(items.drop_last()), items.last())
    }
}

/// The keys ascend strictly: the list is sorted and no key occurs twice.
pub open spec fn ascending(list: Seq<CandidateView>) -> bool {
    forall|i: int, j: int| 0 <= i < j < list.len() ==> lex_less(list[i].key, list[j].key)
}

/// Some candidate of `list` has key `key`.
pub open spec fn has_key(list: Seq<CandidateView>, key: Seq<char>) -> bool {
    exists|i: int| 0 <= i < list.len() && #[trigger] list[i].key == key
}

/// Some candidate of `list` is `c`.
pub open spec fn has_candidate(list: Seq<CandidateView>, c: CandidateView) -> bool {
    exists|i: int| 0 <= i < list.len() && #[trigger] list[i] == c
}

/// The candidate of `items` that is first to have key `key`.
pub open spec fn first_with_key(items: Seq<CandidateView>, key: Seq<char>) -> Option<
    CandidateView,
>
    decreases items.len(),
{
    if items.len() == 0 {
        None
    } else {
        match first_with_key(items.drop_last(), key) {
            Some(c) => Some(c),
            None => if items.last().key == key {
                Some(items.last())
            } else {
                None
            },
        }
    }
}

/// Inserting into an ascending list gives an ascending list that holds
/// what the list held, and the new candidate where its key was missing.
pub proof fn lemma_inserted(list: Seq<CandidateView>, item: CandidateView)
    requires
        ascending(list),
    ensures
        ascending(inserted(list, item)),
        forall|c: CandidateView|
            #![trigger has_candidate(inserted(list, item), c)]
            #![trigger has_candidate(list, c)]
            has_candidate(inserted(list, item), c) <==> (has_candidate(list, c) || (c == item
                && !has_key(list, item.key))),
        has_candidate(inserted(list, item), item) || has_key(list, item.key),
        inserted(list, item).len() == list.len() + if has_key(list, item.key) {
            0int
        } else {
            1int
        },
    decreases list.len(),
{
    let out = inserted(list, item);
    if list.len() == 0 {
        assert(out[0] == item);
        assert forall|c: CandidateView| has_candidate(out, c) <==> (has_candidate(list, c) || (c
            == item && !has_key(list, item.key))) by {
            if c == item {
                assert(out[0] == c);
            }
        }
    } else if lex_less(list[0].key, item.key) {
        let rest = list.drop_first();
        assert(forall|k: int| 0 <= k < rest.len() ==> rest[k] == list[k + 1]);
        assert(ascending(rest));
        lemma_inserted(rest, item);
        let tail = inserted(rest, item);
        assert(forall|k: int| 0 <= k < tail.len() ==> out[k + 1] == tail[k]);
        assert(out[0] == list[0]);
        lemma_lex_irreflexive(item.key);
        assert(has_key(list, item.key) <==> has_key(rest, item.key)) by {
            if has_key(list, item.key) {
                let i = choose|i: int| 0 <= i < list.len() && #[trigger] list[i].key == item.key;
                assert(i > 0);
                assert(rest[i - 1].key == item.key);
            }
            if has_key(rest, item.key) {
                let i = choose|i: int| 0 <= i < rest.len() && #[trigger] rest[i].key == item.key;
                assert(list[i + 1].key == item.key);
            }
        }
        assert forall|c: CandidateView| has_candidate(out, c) <==> (has_candidate(list, c) || (c
            == item && !has_key(list, item.key))) by {
            if has_candidate(out, c) {
                let i = choose|i: int| 0 <= i < out.len() && #[trigger] out[i] == c;
                if i == 0 {
                    assert(list[0] == c);
                } else {
                    assert(tail[i - 1] == c);
                    assert(has_candidate(tail, c));
                    if has_candidate(rest, c) {
                        let k = choose|k: int| 0 <= k < rest.len() && #[trigger] rest[k] == c;
                        assert(list[k + 1] == c);
                    }
                }
            }
            if has_candidate(list, c) {
                let i = choose|i: int| 0 <= i < list.len() && #[trigger] list[i] == c;
                if i == 0 {
                    assert(out[0] == c);
                } else {
                    assert(rest[i - 1] == c);
                    assert(has_candidate(rest, c));
                    assert(has_candidate(tail, c));
                    let k = choose|k: int| 0 <= k < tail.len() && #[trigger] tail[k] == c;
                    assert(out[k + 1] == c);
                }
            }
            if c == item && !has_key(list, item.key) {
                assert(!has_key(rest, item.key));
                assert(has_candidate(tail, c));
                let k = choose|k: int| 0 <= k < tail.len() && #[trigger] tail[k] == c;
                assert(out[k + 1] == c);
            }
        }
        assert forall|i: int, j: int| 0 <= i < j < out.len() implies lex_less(
            out[i].key,
            out[j].key,
        ) by {
            if i > 0 {
                assert(out[i] == tail[i - 1]);
                assert(out[j] == tail[j - 1]);
            } else {
                assert(out[j] == tail[j - 1]);
                assert(has_candidate(tail, tail[j - 1]));
                if has_candidate(rest, tail[j - 1]) {
                    let k = choose|k: int| 0 <= k < rest.len() && #[trigger] rest[k] == tail[j
                        - 1];
                    assert(list[k + 1] == tail[j - 1]);
                }
            }
        }
    } else if list[0].key == item.key {
        assert(has_key(list, item.key));
    } else {
        lemma_lex_total(list[0].key, item.key);
        assert(forall|k: int| 0 <= k < list.len() ==> out[k + 1] == list[k]);
        assert(out[0] == item);
        assert(!has_key(list, item.key)) by {
            if has_key(list, item.key) {
                let i = choose|i: int| 0 <= i < list.len() && #[trigger] list[i].key == item.key;
                if i > 0 {
                    lemma_lex_asymmetric(list[0].key, list[i].key);
                }
            }
        }
        assert forall|c: CandidateView| has_candidate(out, c) <==> (has_candidate(list, c) || (c
            == item && !has_key(list, item.key))) by {
            if has_candidate(out, c) {
                let i = choose|i: int| 0 <= i < out.len() && #[trigger] out[i] == c;
                if i > 0 {
                    assert(list[i - 1] == c);
                }
            }
            if has_candidate(list, c) {
                let i = choose|i: int| 0 <= i < list.len() && #[trigger] list[i] == c;
                assert(out[i + 1] == c);
            }
            if c == item {
                assert(out[0] == c);
            }
        }
        assert forall|i: int, j: int| 0 <= i < j < out.len() implies lex_less(
            out[i].key,
            out[j].key,
        ) by {
            if i > 0 {
                assert(out[i] == list[i - 1]);
                assert(out[j] == list[j - 1]);
            } else {
                assert(out[j] == list[j - 1]);
                if j - 1 > 0 {
                    lemma_lex_transitive(item.key, list[0].key, list[j - 1].key);
                }
            }
        }
    }
}

/// In a list whose keys ascend strictly no key occurs twice.
pub proof fn lemma_ascending_is_unique(list: Seq<CandidateView>)
    requires
        ascending(list),
    ensures
        forall|i: int, j: int| 0 <= i < j < list.len() ==> list[i].key != list[j].key,
{
    assert forall|i: int, j: int| 0 <= i < j < list.len() implies list[i].key != list[j].key by {
        lemma_lex_irreflexive(list[i].key);
    }
}

/// What discovery gives: the keys ascend strictly, so no key occurs twice;
/// every candidate that comes out went in; and every key that went in comes
/// out, with the candidate that was first to have it. A listing that
/// links to N films, however often to each, gives N addresses, sorted.
pub proof fn lemma_discovered(items: Seq<CandidateView>)
    ensures
        ascending(discovered(items)),
        forall|c: CandidateView|
            #![trigger has_candidate(discovered(items), c)]
            #![trigger has_candidate(items, c)]
            has_candidate(discovered(items), c) <==> (has_candidate(items, c) && first_with_key(
                items,
                c.key,
            ) == Some(c)),
        forall|key: Seq<char>|
            #![trigger has_key(discovered(items), key)]
            #![trigger has_key(items, key)]
            has_key(discovered(items), key) <==> has_key(items, key),
    decreases items.len(),
{
    let out = discovered(items);
    if items.len() == 0 {
    } else {
        let before = items.drop_last();
        let prev = discovered(before);
        let item = items.last();
        lemma_discovered(before);
        lemma_inserted(prev, item);
        assert(forall|k: int| 0 <= k < before.len() ==> before[k] == items[k]);
        assert forall|key: Seq<char>| has_key(items, key) <==> (has_key(before, key) || key
            == item.key) by {
            if has_key(items, key) {
                let i = choose|i: int| 0 <= i < items.len() && #[trigger] items[i].key == key;
                if i < before.len() {
                    assert(before[i].key == key);
                }
            }
            if has_key(before, key) {
                let i = choose|i: int| 0 <= i < before.len() && #[trigger] before[i].key == key;
                assert(items[i].key == key);
            }
            if key == item.key {
                assert(items[items.len() - 1].key == key);
            }
        }
        assert forall|c: CandidateView| has_candidate(items, c) <==> (has_candidate(before, c)
            || c == item) by {
            if has_candidate(items, c) {
                let i = choose|i: int| 0 <= i < items.len() && #[trigger] items[i] == c;
                if i < before.len() {
                    assert(before[i] == c);
                }
            }
            if has_candidate(before, c) {
                let i = choose|i: int| 0 <= i < before.len() && #[trigger] before[i] == c;
                assert(items[i] == c);
            }
            if c == item {
                assert(items[items.len() - 1] == c);
            }
        }
        assert forall|key: Seq<char>| has_key(prev, key) <==> first_with_key(
            before,
            key,
        ) is Some by {
            lemma_first_with_key(before, key);
        }
        assert forall|c: CandidateView| has_candidate(out, c) <==> (has_candidate(items, c)
            && first_with_key(items, c.key) == Some(c)) by {
            lemma_first_with_key(before, c.key);
            if has_candidate(prev, c) {
                let i = choose|i: int| 0 <= i < prev.len() && #[trigger] prev[i] == c;
                assert(prev[i].key == c.key);
            }
        }
        assert forall|key: Seq<char>| has_key(out, key) <==> has_key(items, key) by {
            if has_key(out, key) {
                let i = choose|i: int| 0 <= i < out.len() && #[trigger] out[i].key == key;
                assert(has_candidate(out, out[i]));
                if has_candidate(prev, out[i]) {
                    let k = choose|k: int| 0 <= k < prev.len() && #[trigger] prev[k] == out[i];
                    assert(prev[k].key == key);
                }
            }
            if has_key(prev, key) {
                let i = choose|i: int| 0 <= i < prev.len() && #[trigger] prev[i].key == key;
                assert(has_candidate(prev, prev[i]));
                assert(has_candidate(out, prev[i]));
                let k = choose|k: int| 0 <= k < out.len() && #[trigger] out[k] == prev[i];
                assert(out[k].key == key);
            }
            if key == item.key && !has_key(prev, key) {
                assert(has_candidate(out, item));
                let k = choose|k: int| 0 <= k < out.len() && #[trigger] out[k] == item;
                assert(out[k].key == key);
            }
        }
    }
}

/// A first candidate with a key exists exactly when the key occurs.
pub proof fn lemma_first_with_key(items: Seq<CandidateView>, key: Seq<char>)
    ensures
        first_with_key(items, key) is Some <==> has_key(items, key),
        first_with_key(items, key) is Some ==> first_with_key(items, key)->0.key == key
            && has_candidate(items, first_with_key(items, key)->0),
    decreases items.len(),
{
    if items.len() > 0 {
        let before = items.drop_last();
        lemma_first_with_key(before, key);
        assert(forall|k: int| 0 <= k < before.len() ==> before[k] == items[k]);
        if has_key(before, key) {
            let i = choose|i: int| 0 <= i < before.len() && #[trigger] before[i].key == key;
            assert(items[i].key == key);
        }
        if has_key(items, key) && !has_key(before, key) {
            let i = choose|i: int| 0 <= i < items.len() && #[trigger] items[i].key == key;
            if i < before.len() {
                assert(before[i].key == key);
            }
        }
        if first_with_key(before, key) is Some {
            let c = first_with_key(before, key)->0;
            let i = choose|i: int| 0 <= i < before.len() && #[trigger] before[i] == c;
            assert(items[i] == c);
        } else if items.last().key == key {
            assert(items[items.len() - 1] == items.last());
        }
    }
}

/// Puts `item` in its place in a list that ascends by key.
pub fn insert(list: &mut Vec<Candidate>, item: Candidate)
    ensures
        candidates_view(final(list)@) == inserted(candidates_view(old(list)@), item@),
{
    let ghost start = candidates_view(list@);
    let mut i: usize = 0;
    proof {
        assert(start.skip(0) == start);
        assert(start.take(0) + inserted(start, item@) == inserted(start, item@));
    }
    while i < list.len()
        invariant
            i <= list.len(),
            start == candidates_view(list@),
            list@ == old(list)@,
            inserted(start, item@) == start.take(i as int) + inserted(start.skip(i as int), item@),
        decreases list.len() - i,
    {
        let ghost rest = start.skip(i as int);
        proof {
            assert(rest[0] == list@[i as int]@);
            assert(rest.drop_first() == start.skip(i + 1));
        }
        if less(&list[i].key, &item.key) {
            proof {
                assert(start.take(i as int) + (seq![rest[0]] + inserted(
                    start.skip(i + 1),
                    item@,
                )) == start.take(i + 1) + inserted(start.skip(i + 1), item@));
            }
            i += 1;
        } else if same(&list[i].key, &item.key) {
            proof {
                assert(start.take(i as int) + rest == start);
            }
            return ;
        } else {
            list.insert(i, item);
            proof {
                assert(candidates_view(list@) =~= start.take(i as int) + (seq![item@] + rest));
            }
            return ;
        }
    }
    proof {
        assert(start.skip(list.len() as int) =~= Seq::<CandidateView>::empty());
    }
    list.push(item);
    proof {
        assert(candidates_view(list@) =~= start.take(start.len() as int) + seq![item@]);
    }
}

/// The candidates to visit: one per key, ascending by key; of the
/// candidates that share a key, the first.
pub fn discover(items: &Vec<Candidate>) -> (out: Vec<Candidate>)
    ensures
        candidates_view(out@) == discovered(candidates_view(items@)),
        ascending(candidates_view(out@)),
{
    let mut out: Vec<Candidate> = Vec::new();
    let mut i: usize = 0;
    proof {
        assert(candidates_view(items@).take(0) =~= Seq::<CandidateView>::empty());
        assert(candidates_view(out@) =~= Seq::<CandidateView>::empty());
    }
    while i < items.len()
        invariant
            i <= items.len(),
            candidates_view(out@) == discovered(candidates_view(items@).take(i as int)),
        decreases items.len() - i,
    {
        proof {
            assert(candidates_view(items@).take(i + 1).drop_last() == candidates_view(
                items@,
            ).take(i as int));
            assert(candidates_view(items@).take(i + 1).last() == items@[i as int]@);
        }
        let item = Candidate { key: copy(&items[i].key), url: copy(&items[i].url) };
        insert(&mut out, item);
        i += 1;
    }
    proof {
        assert(candidates_view(items@).take(items.len() as int) == candidates_view(items@));
        lemma_discovered(candidates_view(items@));
    }
    out
}

/// The addresses of a list of candidates, in order.
pub open spec fn urls_of(list: Seq<CandidateView>) -> Seq<Seq<char>> {
    Seq::new(list.len(), |i: int| list[i].url)
}

/// The addresses of the candidates, in order.
pub fn candidate_urls(list: &Vec<Candidate>) -> (out: Vec<Vec<char>>)
    ensures
        crate::text::views(out@) == urls_of(candidates_view(list@)),
{
    let mut out: Vec<Vec<char>> = Vec::new();
    let mut i: usize = 0;
    while i < list.len()
        invariant
            i <= list.len(),
            out@.len() == i,
            forall|j: int| 0 <= j < i ==> (#[trigger] out@[j])@ == list@[j].url@,
        decreases list.len() - i,
    {
        out.push(copy(&list[i].url));
        i += 1;
    }
    assert(crate::text::views(out@) =~= urls_of(candidates_view(list@)));
    out
}

/// Records that carry an address each and nothing else yet.
pub open spec fn bare_films(urls: Seq<Seq<char>>) -> Seq<FilmView> {
    Seq::new(urls.len(), |i: int| FilmView::bare(Seq::empty(), urls[i]))
}

/// Candidate records for the given addresses.
pub fn bare_candidates(urls: &Vec<Vec<char>>) -> (out: Vec<Film>)
    ensures
        films_view(out@) == bare_films(views(urls@)),
{
    let mut out: Vec<Film> = Vec::new();
    let mut i: usize = 0;
    while i < urls.len()
        invariant
            i <= urls.len(),
            out@.len() == i,
            forall|j: int| 0 <= j < i ==> (#[trigger] out@[j])@ == FilmView::bare(
                Seq::empty(),
                urls@[j]@,
            ),
        decreases urls.len() - i,
    {
        out.push(Film::bare(String::new(), string_of(&urls[i])));
        i += 1;
    }
    assert(films_view(out@) =~= bare_films(views(urls@)));
    out
}

/// Each address as a candidate that is its own key.
pub open spec fn self_keyed(urls: Seq<Seq<char>>) -> Seq<CandidateView> {
    Seq::new(urls.len(), |i: int| CandidateView { key: urls[i], url: urls[i] })
}

/// The texts of `urls`, each once, in ascending order.
pub open spec fn sorted_set(urls: Seq<Seq<char>>) -> Seq<Seq<char>> {
    urls_of(discovered(self_keyed(urls)))
}

/// The texts of `urls`, each once, in ascending order.
pub fn sort_unique(urls: &Vec<Vec<char>>) -> (out: Vec<Vec<char>>)
    ensures
        views(out@) == sorted_set(views(urls@)),
{
    let mut items: Vec<Candidate> = Vec::new();
    let mut i: usize = 0;
    while i < urls.len()
        invariant
            i <= urls.len(),
            items@.len() == i,
            forall|j: int|
                0 <= j < i ==> (#[trigger] items@[j])@ == (CandidateView {
                    key: urls@[j]@,
                    url: urls@[j]@,
                }),
        decreases urls.len() - i,
    {
        items.push(Candidate { key: copy(&urls[i]), url: copy(&urls[i]) });
        i += 1;
    }
    assert(candidates_view(items@) =~= self_keyed(views(urls@)));
    candidate_urls(&discover(&items))
}

/// The addresses of a list of records, in order.
pub open spec fn addresses(films: Seq<FilmView>) -> Seq<Seq<char>> {
    Seq::new(films.len(), |i: int| films[i].url)
}

/// The first record with the given address; a bare one where there is none.
pub open spec fn first_at_address(films: Seq<FilmView>, url: Seq<char>) -> FilmView {
    match crate::merge::url_index(films, url) {
        Some(i) => films[i],
        None => FilmView::bare(Seq::empty(), url),
    }
}

/// The records in ascending order of their addresses, one per address:
/// of the records that share one, the first.
pub open spec fn arranged(films: Seq<FilmView>) -> Seq<FilmView> {
    Seq::new(
        sorted_set(addresses(films)).len(),
        |k: int| first_at_address(films, sorted_set(addresses(films))[k]),
    )
}

/// The records in ascending order of their addresses, one per address.
pub fn arrange(films: &Vec<Film>) -> (out: Vec<Film>)
    ensures
        films_view(out@) == arranged(films_view(films@)),
{
    let mut urls: Vec<Vec<char>> = Vec::new();
    let mut i: usize = 0;
    while i < films.len()
        invariant
            i <= films.len(),
            urls@.len() == i,
            forall|j: int| 0 <= j < i ==> (#[trigger] urls@[j])@ == films@[j]@.url,
        decreases films.len() - i,
    {
        urls.push(crate::text::chars_of(films[i].url.as_str()));
        i += 1;
    }
    assert(views(urls@) =~= addresses(films_view(films@)));
    let sorted = sort_unique(&urls);
    let mut out: Vec<Film> = Vec::new();
    let mut k: usize = 0;
    while k < sorted.len()
        invariant
            k <= sorted.len(),
            out@.len() == k,
            views(sorted@) == sorted_set(addresses(films_view(films@))),
            forall|j: int|
                0 <= j < k ==> (#[trigger] out@[j])@ == first_at_address(
                    films_view(films@),
                    sorted@[j]@,
                ),
        decreases sorted.len() - k,
    {
        let url = string_of(&sorted[k]);
        let film = match crate::merge::find_url(films, &url) {
            Some(i) => {
                proof {
                    crate::merge::lemma_url_index(films_view(films@), url@);
                }
                films[i].duplicate()
            },
            None => Film::bare(String::new(), url),
        };
        out.push(film);
        k += 1;
    }
    assert(films_view(out@) =~= arranged(films_view(films@))) by {
        assert forall|j: int| 0 <= j < out@.len() implies films_view(out@)[j] == arranged(
            films_view(films@),
        )[j] by {
            assert(views(sorted@)[j] == sorted@[j]@);
        }
    }
    out
}

/// What `sorted_set` gives: the texts ascend strictly, so none occurs
/// twice, and they are the texts that went in, no more and no fewer.
pub proof fn lemma_sorted_set(urls: Seq<Seq<char>>)
    ensures
        forall|i: int, j: int|
            0 <= i < j < sorted_set(urls).len() ==> lex_less(
                #[trigger] sorted_set(urls)[i],
                #[trigger] sorted_set(urls)[j],
            ),
        forall|t: Seq<char>| #[trigger] sorted_set(urls).contains(t) <==> urls.contains(t),
{
    let items = self_keyed(urls);
    let found = discovered(items);
    let out = sorted_set(urls);
    lemma_discovered(items);
    assert forall|i: int| 0 <= i < found.len() implies (#[trigger] found[i]).url == found[i].key by {
        assert(has_candidate(found, found[i]));
        let k = choose|k: int| 0 <= k < items.len() && #[trigger] items[k] == found[i];
        assert(items[k].key == items[k].url);
    }
    assert forall|i: int, j: int| 0 <= i < j < out.len() implies lex_less(
        #[trigger] out[i],
        #[trigger] out[j],
    ) by {
        assert(found[i].url == found[i].key);
        assert(found[j].url == found[j].key);
    }
    assert forall|t: Seq<char>| #[trigger] out.contains(t) <==> urls.contains(t) by {
        if out.contains(t) {
            let i = choose|i: int| 0 <= i < out.len() && out[i] == t;
            assert(found[i].url == found[i].key);
            assert(found[i].key == t);
            assert(has_key(found, t));
            assert(has_key(items, t));
            let k = choose|k: int| 0 <= k < items.len() && #[trigger] items[k].key == t;
            assert(urls[k] == t);
        }
        if urls.contains(t) {
            let k = choose|k: int| 0 <= k < urls.len() && urls[k] == t;
            assert(items[k].key == t);
            assert(has_key(items, t));
            assert(has_key(found, t));
            let i = choose|i: int| 0 <= i < found.len() && #[trigger] found[i].key == t;
            assert(found[i].url == found[i].key);
            assert(out[i] == t);
        }
    }
}

} // verus!
