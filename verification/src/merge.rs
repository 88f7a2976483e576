//! Collapsing records that share an address into one record.
//!
//! A source that lists a film once per day or per showtime yields several
//! records with one address. Merging keeps one record per address, in the
//! order in which the addresses first appear; the first value seen of each
//! field stays, and the showtimes of all occurrences are gathered, each
//! phrase once.

use crate::film::{copy_opt, films_view, opt_view, strings_view, Film, FilmView};
use vstd::prelude::*;

verus! {

/// `acc`, then the items of `l` that are not yet in it, each once, in order.
pub open spec fn distinct_onto(acc: Seq<Seq<char>>, l: Seq<Seq<char>>) -> Seq<Seq<char>>
    decreases l.len(),
{
    if l.len() == 0 {
        acc
    } else {
        let d = distinct_onto(acc, l.drop_last());
        if d.contains(l.last()) {
            d
        } else {
            d.push(l.last())
        }
    }
}

/// The items of `l`, each once, in the order of their first occurrence.
pub open spec fn distinct(l: Seq<Seq<char>>) -> Seq<Seq<char>> {
    distinct_onto(Seq::empty(), l)
}

/// The items of an optional list.
pub open spec fn listed(o: Option<Seq<Seq<char>>>) -> Seq<Seq<char>> {
    match o {
        Some(l) => l,
        None => Seq::empty(),
    }
}

/// The first of two optional values that is present.
pub open spec fn first_of<T>(a: Option<T>, b: Option<T>) -> Option<T> {
    match a {
        Some(_) => a,
        None => b,
    }
}

/// The record with each showtime phrase once.
pub open spec fn normal(f: FilmView) -> FilmView {
    FilmView {
        showtimes: match f.showtimes {
            Some(l) => Some(distinct(l)),
            None => None,
        },
        ..f
    }
}

/// The record that stands for `a` and a later occurrence `b` of the same
/// address: the fields of `a` where it has them, else those of `b`, and the
/// showtimes of both, each phrase once.
pub open spec fn absorbed(a: FilmView, b: FilmView) -> FilmView {
    FilmView {
        title: if a.title.len() > 0 {
            a.title
        } else {
            b.title
        },
        url: a.url,
        poster_url: first_of(a.poster_url, b.poster_url),
        cast: first_of(a.cast, b.cast),
        release_date: first_of(a.release_date, b.release_date),
        running_time: first_of(a.running_time, b.running_time),
        synopsis: first_of(a.synopsis, b.synopsis),
        showtimes: if a.showtimes is None && b.showtimes is None {
            None
        } else {
            Some(distinct(listed(a.showtimes) + listed(b.showtimes)))
        },
    }
}

/// Index of the first record of `out` with address `url`.
pub open spec fn url_index(out: Seq<FilmView>, url: Seq<char>) -> Option<int>
    decreases out.len(),
{
    if out.len() == 0 {
        None
    } else {
        match url_index(out.drop_last(), url) {
            Some(i) => Some(i),
            None => if out.last().url == url {
                Some(out.len() - 1)
            } else {
                None
            },
        }
    }
}

/// `out` with one more record taken in.
pub open spec fn merge_into(out: Seq<FilmView>, f: FilmView) -> Seq<FilmView> {
    match url_index(out, f.url) {
        Some(i) => out.update(i, absorbed(out[i], f)),
        None => out.push(normal(f)),
    }
}

/// The merged sequence of `films`.
pub open spec fn merged(films: Seq<FilmView>) -> Seq<FilmView>
    decreases films.len(),
{
    if films.len() == 0 {
        Seq::empty()
    } else {
        merge_into(merged(films.drop_last()), films.last())
    }
}

/// No two records share an address.
pub open spec fn distinct_urls(s: Seq<FilmView>) -> bool {
    forall|i: int, j: int| 0 <= i < j < s.len() ==> s[i].url != s[j].url
}

/// Every record holds each of its showtime phrases once.
pub open spec fn all_normal(s: Seq<FilmView>) -> bool {
    forall|i: int| 0 <= i < s.len() ==> #[trigger] normal(s[i]) == s[i]
}

/// What `url_index` finds is the first record with the address.
pub proof fn lemma_url_index(out: Seq<FilmView>, url: Seq<char>)
    ensures
        match url_index(out, url) {
            Some(i) => 0 <= i < out.len() && out[i].url == url && forall|j: int|
                0 <= j < i ==> out[j].url != url,
            None => forall|j: int| 0 <= j < out.len() ==> out[j].url != url,
        },
    decreases out.len(),
{
    if out.len() > 0 {
        let t = out.drop_last();
        lemma_url_index(t, url);
        assert(forall|j: int| 0 <= j < t.len() ==> t[j] == out[j]);
    }
}

/// Adding distinct items to a list without repetitions leaves it without repetitions.
pub proof fn lemma_distinct_onto_no_duplicates(acc: Seq<Seq<char>>, l: Seq<Seq<char>>)
    requires
        acc.no_duplicates(),
    ensures
        distinct_onto(acc, l).no_duplicates(),
    decreases l.len(),
{
    if l.len() > 0 {
        lemma_distinct_onto_no_duplicates(acc, l.drop_last());
    }
}

/// A list without repetitions is its own distinct list.
pub proof fn lemma_distinct_fixed(l: Seq<Seq<char>>)
    requires
        l.no_duplicates(),
    ensures
        distinct(l) == l,
    decreases l.len(),
{
    if l.len() > 0 {
        let t = l.drop_last();
        assert(forall|j: int| 0 <= j < t.len() ==> t[j] == l[j]);
        lemma_distinct_fixed(t);
        assert(!t.contains(l.last()));
        assert(t.push(l.last()) =~= l);
    } else {
        assert(l =~= Seq::<Seq<char>>::empty());
    }
}

/// The distinct list of a distinct list is that list.
pub proof fn lemma_distinct_idempotent(l: Seq<Seq<char>>)
    ensures
        distinct(distinct(l)) == distinct(l),
{
    lemma_distinct_onto_no_duplicates(Seq::empty(), l);
    lemma_distinct_fixed(distinct(l));
}

/// Adding two lists one after the other is adding them joined.
pub proof fn lemma_distinct_onto_concat(acc: Seq<Seq<char>>, a: Seq<Seq<char>>, b: Seq<Seq<char>>)
    ensures
        distinct_onto(acc, a + b) == distinct_onto(distinct_onto(acc, a), b),
    decreases b.len(),
{
    if b.len() == 0 {
        assert(a + b =~= a);
    } else {
        assert((a + b).drop_last() =~= a + b.drop_last());
        assert((a + b).last() == b.last());
        lemma_distinct_onto_concat(acc, a, b.drop_last());
    }
}

/// What merging gives has one record per address, each with its
/// showtime phrases once.
pub proof fn lemma_merged_is_clean(films: Seq<FilmView>)
    ensures
        distinct_urls(merged(films)),
        all_normal(merged(films)),
    decreases films.len(),
{
    if films.len() > 0 {
        let out = merged(films.drop_last());
        let f = films.last();
        lemma_merged_is_clean(films.drop_last());
        lemma_url_index(out, f.url);
        let next = merge_into(out, f);
        match url_index(out, f.url) {
            Some(i) => {
                let m = absorbed(out[i], f);
                if m.showtimes is Some {
                    lemma_distinct_idempotent(listed(out[i].showtimes) + listed(f.showtimes));
                }
                assert(normal(m) == m);
                assert forall|k: int| 0 <= k < next.len() implies #[trigger] normal(next[k])
                    == next[k] by {
                    if k != i {
                        assert(next[k] == out[k]);
                    }
                }
                assert forall|a: int, b: int| 0 <= a < b < next.len() implies next[a].url
                    != next[b].url by {
                    assert(next[a].url == out[a].url);
                    assert(next[b].url == out[b].url);
                }
            },
            None => {
                let n = normal(f);
                if f.showtimes is Some {
                    lemma_distinct_idempotent(f.showtimes->0);
                }
                assert(normal(n) == n);
                assert forall|k: int| 0 <= k < next.len() implies #[trigger] normal(next[k])
                    == next[k] by {
                    if k < out.len() {
                        assert(next[k] == out[k]);
                    }
                }
                assert forall|a: int, b: int| 0 <= a < b < next.len() implies next[a].url
                    != next[b].url by {
                    if b < out.len() {
                        assert(next[a] == out[a]);
                        assert(next[b] == out[b]);
                    } else {
                        assert(next[a] == out[a]);
                    }
                }
            },
        }
    }
}

/// Every record has a title and an address.
pub open spec fn all_emittable(films: Seq<FilmView>) -> bool {
    forall|i: int| 0 <= i < films.len() ==> (#[trigger] films[i]).emittable()
}

/// Merging records that have titles and addresses gives records that
/// have them.
pub proof fn lemma_merged_emittable(films: Seq<FilmView>)
    requires
        all_emittable(films),
    ensures
        all_emittable(merged(films)),
    decreases films.len(),
{
    if films.len() > 0 {
        let before = films.drop_last();
        assert(all_emittable(before)) by {
            assert forall|i: int| 0 <= i < before.len() implies (#[trigger] before[i]).emittable() by {
                assert(films[i].emittable());
            }
        }
        lemma_merged_emittable(before);
        let out = merged(before);
        let f = films.last();
        assert(films[films.len() - 1].emittable());
        lemma_url_index(out, f.url);
        let next = merge_into(out, f);
        assert forall|k: int| 0 <= k < next.len() implies (#[trigger] next[k]).emittable() by {
            match url_index(out, f.url) {
                Some(i) => {
                    assert(out[i].emittable());
                    if k != i {
                        assert(out[k].emittable());
                    }
                },
                None => {
                    if k < out.len() {
                        assert(out[k].emittable());
                    }
                },
            }
        }
    }
}

/// Merging leaves a sequence unchanged that has one record per address,
/// each with its showtime phrases once.
pub proof fn lemma_merged_fixed(s: Seq<FilmView>)
    requires
        distinct_urls(s),
        all_normal(s),
    ensures
        merged(s) == s,
    decreases s.len(),
{
    if s.len() > 0 {
        let t = s.drop_last();
        assert(forall|j: int| 0 <= j < t.len() ==> t[j] == s[j]);
        assert(all_normal(t)) by {
            assert forall|i: int| 0 <= i < t.len() implies #[trigger] normal(t[i]) == t[i] by {
                assert(normal(s[i]) == s[i]);
            }
        }
        lemma_merged_fixed(t);
        lemma_url_index(t, s.last().url);
        assert(url_index(t, s.last().url) is None) by {
            if url_index(t, s.last().url) is Some {
                let i = url_index(t, s.last().url)->0;
                assert(s[i].url == s[s.len() - 1].url);
            }
        }
        assert(normal(s[s.len() - 1]) == s[s.len() - 1]);
        assert(t.push(s.last()) =~= s);
    } else {
        assert(s =~= Seq::<FilmView>::empty());
    }
}

/// Merging is idempotent: merging a merged sequence again changes nothing.
pub proof fn lemma_merge_idempotent(films: Seq<FilmView>)
    ensures
        merged(merged(films)) == merged(films),
{
    lemma_merged_is_clean(films);
    lemma_merged_fixed(merged(films));
}

/// Whether `list` holds a string equal to `s`.
pub fn holds_string(list: &Vec<String>, s: &String) -> (r: bool)
    ensures
        r == strings_view(list@).contains(s@),
{
    let mut i: usize = 0;
    while i < list.len()
        invariant
            i <= list.len(),
            forall|j: int| 0 <= j < i ==> strings_view(list@)[j] != s@,
        decreases list.len() - i,
    {
        if list[i] == *s {
            assert(strings_view(list@)[i as int] == s@);
            return true;
        }
        i += 1;
    }
    false
}

/// Appends to `dst` the strings of `src` that it does not hold yet, each once.
pub fn push_distinct(dst: &mut Vec<String>, src: &Vec<String>)
    ensures
        strings_view(final(dst)@) == distinct_onto(strings_view(old(dst)@), strings_view(src@)),
{
    let mut i: usize = 0;
    while i < src.len()
        invariant
            i <= src.len(),
            strings_view(dst@) == distinct_onto(
                strings_view(old(dst)@),
                strings_view(src@).take(i as int),
            ),
        decreases src.len() - i,
    {
        proof {
            assert(strings_view(src@).take(i + 1).drop_last() == strings_view(src@).take(
                i as int,
            ));
            assert(strings_view(src@).take(i + 1).last() == src@[i as int]@);
        }
        if !holds_string(dst, &src[i]) {
            let ghost before = strings_view(dst@);
            dst.push(src[i].clone());
            assert(strings_view(dst@) =~= before.push(src@[i as int]@));
        }
        i += 1;
    }
    proof {
        assert(strings_view(src@).take(src.len() as int) == strings_view(src@));
    }
}

/// The strings of `l`, each once, in the order of their first occurrence.
pub fn distinct_strings(l: &Vec<String>) -> (out: Vec<String>)
    ensures
        strings_view(out@) == distinct(strings_view(l@)),
{
    let mut out: Vec<String> = Vec::new();
    assert(strings_view(out@) =~= Seq::<Seq<char>>::empty());
    push_distinct(&mut out, l);
    out
}

/// A copy of the record with each showtime phrase once.
pub fn normalize(f: &Film) -> (out: Film)
    ensures
        out@ == normal(f@),
{
    let mut out = f.duplicate();
    out.showtimes = match &f.showtimes {
        Some(l) => Some(distinct_strings(l)),
        None => None,
    };
    out
}

fn first_string(a: &Option<String>, b: &Option<String>) -> (out: Option<String>)
    ensures
        opt_view(out) == first_of(opt_view(*a), opt_view(*b)),
{
    match a {
        Some(_) => copy_opt(a),
        None => copy_opt(b),
    }
}

/// The record that stands for `a` and a later occurrence `b`.
pub fn absorb(a: &Film, b: &Film) -> (out: Film)
    ensures
        out@ == absorbed(a@, b@),
{
    let showtimes = if a.showtimes.is_none() && b.showtimes.is_none() {
        None
    } else {
        let mut all: Vec<String> = Vec::new();
        assert(strings_view(all@) =~= Seq::<Seq<char>>::empty());
        if let Some(l) = &a.showtimes {
            push_distinct(&mut all, l);
        }
        if let Some(l) = &b.showtimes {
            push_distinct(&mut all, l);
        }
        proof {
            lemma_distinct_onto_concat(
                Seq::empty(),
                listed(a@.showtimes),
                listed(b@.showtimes),
            );
        }
        Some(all)
    };
    Film {
        title: if a.title.as_str().unicode_len() > 0 {
            a.title.clone()
        } else {
            b.title.clone()
        },
        url: a.url.clone(),
        poster_url: first_string(&a.poster_url, &b.poster_url),
        cast: first_string(&a.cast, &b.cast),
        release_date: first_string(&a.release_date, &b.release_date),
        running_time: match a.running_time {
            Some(_) => a.running_time,
            None => b.running_time,
        },
        synopsis: first_string(&a.synopsis, &b.synopsis),
        showtimes,
    }
}

/// Index of the first record with the given address.
pub fn find_url(out: &Vec<Film>, url: &String) -> (r: Option<usize>)
    ensures
        match r {
            Some(i) => url_index(films_view(out@), url@) == Some(i as int),
            None => url_index(films_view(out@), url@) is None,
        },
{
    let mut i: usize = 0;
    while i < out.len()
        invariant
            i <= out.len(),
            forall|j: int| 0 <= j < i ==> films_view(out@)[j].url != url@,
        decreases out.len() - i,
    {
        if out[i].url == *url {
            proof {
                lemma_url_index(films_view(out@), url@);
                assert(films_view(out@)[i as int].url == url@);
            }
            return Some(i);
        }
        i += 1;
    }
    proof {
        lemma_url_index(films_view(out@), url@);
    }
    None
}

/// Collapses the records that share an address.
pub fn merge_films(films: &Vec<Film>) -> (out: Vec<Film>)
    ensures
        films_view(out@) == merged(films_view(films@)),
{
    let mut out: Vec<Film> = Vec::new();
    let mut i: usize = 0;
    assert(films_view(films@).take(0) =~= Seq::<FilmView>::empty());
    assert(films_view(out@) =~= Seq::<FilmView>::empty());
    while i < films.len()
        invariant
            i <= films.len(),
            films_view(out@) == merged(films_view(films@).take(i as int)),
        decreases films.len() - i,
    {
        proof {
            assert(films_view(films@).take(i + 1).drop_last() == films_view(films@).take(
                i as int,
            ));
            assert(films_view(films@).take(i + 1).last() == films@[i as int]@);
        }
        let ghost before = films_view(out@);
        match find_url(&out, &films[i].url) {
            Some(k) => {
                proof {
                    lemma_url_index(before, films@[i as int]@.url);
                }
                let m = absorb(&out[k], &films[i]);
                out.set(k, m);
                assert(films_view(out@) =~= before.update(k as int, m@));
            },
            None => {
                let n = normalize(&films[i]);
                out.push(n);
                assert(films_view(out@) =~= before.push(n@));
            },
        }
        i += 1;
    }
    proof {
        assert(films_view(films@).take(films.len() as int) == films_view(films@));
    }
    out
}

} // verus!
