//! Character-sequence utilities. Text is handled as `Vec<char>`, whose view
//! is the `Seq<char>` that every contract in this crate speaks of.

use vstd::prelude::*;

verus! {

/// The views of a list of texts, in order.
pub open spec fn views(v: Seq<Vec<char>>) -> Seq<Seq<char>> {
    Seq::new(v.len(), |i: int| v[i]@)
}

/// Unicode `White_Space`: the characters that trimming and word splitting skip.
pub open spec fn white(c: char) -> bool {
    let u = c as u32;
    (0x09 <= u && u <= 0x0D) || u == 0x20 || u == 0x85 || u == 0xA0 || u == 0x1680 || (0x2000 <= u
        && u <= 0x200A) || u == 0x2028 || u == 0x2029 || u == 0x202F || u == 0x205F || u == 0x3000
}

/// An ASCII decimal digit.
pub open spec fn digit(c: char) -> bool {
    '0' <= c && c <= '9'
}

/// An ASCII letter.
pub open spec fn letter(c: char) -> bool {
    ('a' <= c && c <= 'z') || ('A' <= c && c <= 'Z')
}

/// Unicode general category `Cc`.
pub open spec fn control(c: char) -> bool {
    let u = c as u32;
    u <= 0x1F || (0x7F <= u && u <= 0x9F)
}

/// The ASCII lower-case form of a character; other characters are unchanged.
pub open spec fn lower(c: char) -> char {
    if 'A' <= c && c <= 'Z' {
        ((c as u32 + 32) as u8) as char
    } else {
        c
    }
}

/// Number of bytes of the UTF-8 encoding of one character.
pub open spec fn width(c: char) -> nat {
    let u = c as u32;
    if u < 0x80 {
        1
    } else if u < 0x800 {
        2
    } else if u < 0x10000 {
        3
    } else {
        4
    }
}

/// Number of bytes of the UTF-8 encoding of a text.
pub open spec fn byte_len(s: Seq<char>) -> nat
    decreases s.len(),
{
    if s.len() == 0 {
        0
    } else {
        byte_len(s.drop_last()) + width(s.last())
    }
}

/// The length of a text that is not empty is the width of its first
/// character and the length of the rest.
pub proof fn lemma_byte_len_front(s: Seq<char>)
    requires
        s.len() > 0,
    ensures
        byte_len(s) == width(s[0]) + byte_len(s.drop_first()),
    decreases s.len(),
{
    if s.len() == 1 {
        assert(s.drop_last() =~= Seq::<char>::empty());
        assert(s.drop_first() =~= Seq::<char>::empty());
    } else {
        lemma_byte_len_front(s.drop_last());
        assert(s.drop_last().drop_first() =~= s.drop_first().drop_last());
        assert(s.drop_last()[0] == s[0]);
        assert(s.drop_first().last() == s.last());
    }
}

/// `byte_len` is the length of the UTF-8 encoding: the length that
/// `str::len` gives.
pub proof fn lemma_byte_len_is_encoded_len(s: Seq<char>)
    ensures
        byte_len(s) == vstd::utf8::encode_utf8(s).len(),
    decreases s.len(),
{
    if s.len() > 0 {
        lemma_byte_len_front(s);
        lemma_byte_len_is_encoded_len(s.drop_first());
        vstd::utf8::char_is_scalar(s[0]);
    }
}

/// Whether a character is white space.
pub fn is_white(c: char) -> (b: bool)
    ensures
        b == white(c),
{
    let u: u32 = c as u32;
    (0x09 <= u && u <= 0x0D) || u == 0x20 || u == 0x85 || u == 0xA0 || u == 0x1680 || (0x2000 <= u
        && u <= 0x200A) || u == 0x2028 || u == 0x2029 || u == 0x202F || u == 0x205F || u == 0x3000
}

/// Whether a character is an ASCII digit.
pub fn is_digit(c: char) -> (b: bool)
    ensures
        b == digit(c),
{
    '0' <= c && c <= '9'
}

/// Whether a character is an ASCII letter.
pub fn is_letter(c: char) -> (b: bool)
    ensures
        b == letter(c),
{
    ('a' <= c && c <= 'z') || ('A' <= c && c <= 'Z')
}

/// Whether a character is a control character.
pub fn is_control(c: char) -> (b: bool)
    ensures
        b == control(c),
{
    let u: u32 = c as u32;
    u <= 0x1F || (0x7F <= u && u <= 0x9F)
}

/// The ASCII lower-case form of a character.
pub fn to_lower(c: char) -> (l: char)
    ensures
        l == lower(c),
{
    if 'A' <= c && c <= 'Z' {
        let u: u32 = c as u32;
        ((u + 32) as u8) as char
    } else {
        c
    }
}

/// The UTF-8 length of a text.
pub fn len_bytes(s: &Vec<char>) -> (n: u128)
    ensures
        n == byte_len(s@),
{
    let mut n: u128 = 0;
    let mut i: usize = 0;
    while i < s.len()
        invariant
            i <= s.len(),
            n == byte_len(s@.take(i as int)),
            n <= 4 * i,
        decreases s.len() - i,
    {
        let u: u32 = s[i] as u32;
        let w: u128 = if u < 0x80 {
            1
        } else if u < 0x800 {
            2
        } else if u < 0x10000 {
            3
        } else {
            4
        };
        proof {
            assert(s@.take(i + 1).drop_last() == s@.take(i as int));
            assert(s@.take(i + 1).last() == s@[i as int]);
        }
        n = n + w;
        i += 1;
    }
    proof {
        assert(s@.take(s.len() as int) == s@);
    }
    n
}

/// The characters of a string slice, in order.
pub fn chars_of(s: &str) -> (out: Vec<char>)
    ensures
        out@ == s@,
{
    let mut out: Vec<char> = Vec::new();
    for c in it: s.chars()
        invariant
            out@ == it.seq().take(it.index() as int),
    {
        out.push(c);
    }
    out
}

/// `String::from_iter` over the characters of `s`: the string whose
/// characters are exactly those of `s`, in order.
#[verifier::external_body]
pub(crate) fn string_of(s: &Vec<char>) -> (out: String)
    ensures
        out@ == s@,
{
    String::from_iter(s.iter())
}

/// `p` stands at the start of `s`.
pub open spec fn has_prefix(s: Seq<char>, p: Seq<char>) -> bool {
    p.len() <= s.len() && s.subrange(0, p.len() as int) == p
}

/// `p` stands at the end of `s`.
pub open spec fn has_suffix(s: Seq<char>, p: Seq<char>) -> bool {
    p.len() <= s.len() && s.subrange(s.len() - p.len(), s.len() as int) == p
}

/// `p` stands in `s` at index `i`.
pub open spec fn occurs_at(s: Seq<char>, p: Seq<char>, i: int) -> bool {
    0 <= i && i + p.len() <= s.len() && s.subrange(i, i + p.len()) == p
}

/// `p` stands somewhere in `s`.
pub open spec fn occurs_in(s: Seq<char>, p: Seq<char>) -> bool {
    exists|i: int| occurs_at(s, p, i)
}

/// Index of the first occurrence of `p` in `s` at or after `from`.
pub open spec fn first_at(s: Seq<char>, p: Seq<char>, from: int) -> Option<int>
    decreases s.len() - from,
{
    if from < 0 || from + p.len() > s.len() {
        None
    } else if occurs_at(s, p, from) {
        Some(from)
    } else if from >= s.len() {
        None
    } else {
        first_at(s, p, from + 1)
    }
}

/// Where `index_of` finds `c`, it stands, and nowhere before.
pub proof fn lemma_index_of(s: Seq<char>, c: char)
    ensures
        match index_of(s, c) {
            Some(k) => 0 <= k < s.len() && s[k] == c && forall|j: int| 0 <= j < k ==> s[j] != c,
            None => forall|j: int| 0 <= j < s.len() ==> s[j] != c,
        },
{
    let p = seq![c];
    lemma_first_at(s, p, 0);
    assert forall|j: int| 0 <= j < s.len() implies (occurs_at(s, p, j) <==> s[j] == c) by {
        if s[j] == c {
            assert(s.subrange(j, j + 1) =~= p);
        } else {
            assert(s.subrange(j, j + 1)[0] == s[j]);
        }
    }
}

/// What `first_at` finds is the least occurrence from `from` on.
pub proof fn lemma_first_at(s: Seq<char>, p: Seq<char>, from: int)
    requires
        0 <= from,
    ensures
        match first_at(s, p, from) {
            Some(k) => from <= k && occurs_at(s, p, k) && forall|j: int|
                from <= j < k ==> !occurs_at(s, p, j),
            None => forall|j: int| from <= j ==> !occurs_at(s, p, j),
        },
    decreases s.len() - from,
{
    if from + p.len() > s.len() {
    } else if occurs_at(s, p, from) {
    } else if from >= s.len() {
        assert(s.subrange(from, from + p.len()) =~= p);
    } else {
        lemma_first_at(s, p, from + 1);
    }
}

/// `p` occurs in `s` exactly when a first occurrence exists.
pub proof fn lemma_occurs_in(s: Seq<char>, p: Seq<char>)
    ensures
        occurs_in(s, p) <==> first_at(s, p, 0) is Some,
{
    lemma_first_at(s, p, 0);
}

/// Index of the first `c` in `s`, if any.
pub open spec fn index_of(s: Seq<char>, c: char) -> Option<int> {
    first_at(s, seq![c], 0)
}

/// Index of the last `c` in `s`, if any.
pub open spec fn last_index_of(s: Seq<char>, c: char) -> Option<int>
    decreases s.len(),
{
    if s.len() == 0 {
        None
    } else if s.last() == c {
        Some(s.len() - 1)
    } else {
        last_index_of(s.drop_last(), c)
    }
}

/// What `last_index_of` finds is an index of `s` that holds `c`, and no later one does.
pub proof fn lemma_last_index_of(s: Seq<char>, c: char)
    ensures
        match last_index_of(s, c) {
            Some(k) => 0 <= k < s.len() && s[k] == c && forall|j: int|
                k < j < s.len() ==> s[j] != c,
            None => forall|j: int| 0 <= j < s.len() ==> s[j] != c,
        },
    decreases s.len(),
{
    if s.len() > 0 && s.last() != c {
        let t = s.drop_last();
        lemma_last_index_of(t, c);
        assert(forall|j: int| 0 <= j < t.len() ==> t[j] == s[j]);
    }
}

/// Every character of `s` is an ASCII digit.
pub open spec fn all_digits(s: Seq<char>) -> bool {
    forall|i: int| 0 <= i < s.len() ==> digit(#[trigger] s[i])
}

/// Some character of `s` is an ASCII digit.
pub open spec fn any_digit(s: Seq<char>) -> bool {
    exists|i: int| 0 <= i < s.len() && digit(#[trigger] s[i])
}

/// The two texts agree once ASCII letters are lower-cased.
pub open spec fn same_ignoring_case(a: Seq<char>, b: Seq<char>) -> bool {
    a.len() == b.len() && forall|i: int| 0 <= i < a.len() ==> lower(#[trigger] a[i]) == lower(b[i])
}

/// Whether two texts are equal.
pub fn same(a: &Vec<char>, b: &Vec<char>) -> (r: bool)
    ensures
        r == (a@ == b@),
{
    if a.len() != b.len() {
        return false;
    }
    let mut i: usize = 0;
    while i < a.len()
        invariant
            i <= a.len(),
            a.len() == b.len(),
            a@.take(i as int) == b@.take(i as int),
        decreases a.len() - i,
    {
        if a[i] != b[i] {
            return false;
        }
        proof {
            assert(a@.take(i + 1) == a@.take(i as int).push(a@[i as int]));
            assert(b@.take(i + 1) == b@.take(i as int).push(b@[i as int]));
        }
        i += 1;
    }
    proof {
        assert(a@.take(a.len() as int) == a@);
        assert(b@.take(b.len() as int) == b@);
    }
    true
}

/// Whether two texts agree once ASCII letters are lower-cased.
pub fn eq_ignore_ascii_case(a: &Vec<char>, b: &Vec<char>) -> (r: bool)
    ensures
        r == same_ignoring_case(a@, b@),
{
    if a.len() != b.len() {
        return false;
    }
    let mut i: usize = 0;
    while i < a.len()
        invariant
            i <= a.len(),
            a.len() == b.len(),
            forall|j: int| 0 <= j < i ==> lower(#[trigger] a@[j]) == lower(b@[j]),
        decreases a.len() - i,
    {
        if to_lower(a[i]) != to_lower(b[i]) {
            return false;
        }
        i += 1;
    }
    true
}

/// Whether `p` stands in `s` at index `i`.
pub fn matches_at(s: &Vec<char>, p: &Vec<char>, i: usize) -> (r: bool)
    ensures
        r == occurs_at(s@, p@, i as int),
{
    if p.len() > s.len() || i > s.len() - p.len() {
        return false;
    }
    let mut k: usize = 0;
    while k < p.len()
        invariant
            k <= p.len(),
            i + p.len() <= s.len(),
            s@.subrange(i as int, i + k) == p@.take(k as int),
        decreases p.len() - k,
    {
        if s[i + k] != p[k] {
            proof {
                assert(s@.subrange(i as int, i + p.len())[k as int] == s@[i + k]);
            }
            return false;
        }
        proof {
            assert(s@.subrange(i as int, i + k + 1) == s@.subrange(i as int, i + k).push(
                s@[i + k],
            ));
            assert(p@.take(k + 1) == p@.take(k as int).push(p@[k as int]));
        }
        k += 1;
    }
    proof {
        assert(p@.take(p.len() as int) == p@);
    }
    true
}

/// Whether `p` stands at the start of `s`.
pub fn starts_with(s: &Vec<char>, p: &Vec<char>) -> (r: bool)
    ensures
        r == has_prefix(s@, p@),
{
    matches_at(s, p, 0)
}

/// Whether `p` stands at the end of `s`.
pub fn ends_with(s: &Vec<char>, p: &Vec<char>) -> (r: bool)
    ensures
        r == has_suffix(s@, p@),
{
    if p.len() > s.len() {
        return false;
    }
    matches_at(s, p, s.len() - p.len())
}

/// The first occurrence of `p` in `s` at or after `from`.
pub fn find_from(s: &Vec<char>, p: &Vec<char>, from: usize) -> (r: Option<usize>)
    ensures
        match r {
            Some(k) => first_at(s@, p@, from as int) == Some(k as int),
            None => first_at(s@, p@, from as int) is None,
        },
{
    if p.len() > s.len() {
        return None;
    }
    let last: usize = s.len() - p.len();
    let mut i: usize = from;
    while i <= last
        invariant
            from <= i,
            last == s.len() - p.len(),
            first_at(s@, p@, i as int) == first_at(s@, p@, from as int),
        decreases last + 1 - i,
    {
        if matches_at(s, p, i) {
            return Some(i);
        }
        if i == last {
            proof {
                lemma_first_at(s@, p@, i as int);
                lemma_first_at(s@, p@, i + 1);
            }
            return None;
        }
        i += 1;
    }
    None
}

/// The first occurrence of `p` in `s`.
pub fn find(s: &Vec<char>, p: &Vec<char>) -> (r: Option<usize>)
    ensures
        match r {
            Some(k) => first_at(s@, p@, 0) == Some(k as int),
            None => first_at(s@, p@, 0) is None,
        },
{
    find_from(s, p, 0)
}

/// Whether `p` stands somewhere in `s`.
pub fn contains(s: &Vec<char>, p: &Vec<char>) -> (r: bool)
    ensures
        r == occurs_in(s@, p@),
{
    proof {
        lemma_occurs_in(s@, p@);
    }
    find_from(s, p, 0).is_some()
}

/// Index of the first `c` in `s`.
pub fn find_char(s: &Vec<char>, c: char) -> (r: Option<usize>)
    ensures
        match r {
            Some(k) => index_of(s@, c) == Some(k as int),
            None => index_of(s@, c) is None,
        },
{
    let mut p: Vec<char> = Vec::new();
    p.push(c);
    assert(p@ == seq![c]);
    find_from(s, &p, 0)
}

/// Index of the last `c` in `s`.
pub fn rfind_char(s: &Vec<char>, c: char) -> (r: Option<usize>)
    ensures
        match r {
            Some(k) => last_index_of(s@, c) == Some(k as int),
            None => last_index_of(s@, c) is None,
        },
{
    let mut i: usize = s.len();
    proof {
        assert(s@.take(s.len() as int) == s@);
    }
    while i > 0
        invariant
            i <= s.len(),
            last_index_of(s@.take(i as int), c) == last_index_of(s@, c),
        decreases i,
    {
        proof {
            assert(s@.take(i as int).last() == s@[i - 1]);
            assert(s@.take(i as int).drop_last() == s@.take(i - 1));
        }
        if s[i - 1] == c {
            return Some(i - 1);
        }
        i -= 1;
    }
    proof {
        assert(s@.take(s.len() as int) == s@);
    }
    None
}

/// Whether every character is an ASCII digit.
pub fn is_all_digits(s: &Vec<char>) -> (r: bool)
    ensures
        r == all_digits(s@),
{
    let mut i: usize = 0;
    while i < s.len()
        invariant
            i <= s.len(),
            forall|j: int| 0 <= j < i ==> digit(#[trigger] s@[j]),
        decreases s.len() - i,
    {
        if !is_digit(s[i]) {
            return false;
        }
        i += 1;
    }
    true
}

/// Whether some character is an ASCII digit.
pub fn has_digit(s: &Vec<char>) -> (r: bool)
    ensures
        r == any_digit(s@),
{
    let mut i: usize = 0;
    while i < s.len()
        invariant
            i <= s.len(),
            forall|j: int| 0 <= j < i ==> !digit(#[trigger] s@[j]),
        decreases s.len() - i,
    {
        if is_digit(s[i]) {
            return true;
        }
        i += 1;
    }
    false
}

/// The characters of `s` from index `from` up to `to`; none where the
/// indices do not name a part of `s`.
pub open spec fn part(s: Seq<char>, from: int, to: int) -> Seq<char> {
    if 0 <= from <= to <= s.len() {
        s.subrange(from, to)
    } else {
        Seq::empty()
    }
}

/// A copy of the characters of `s` from index `from` up to `to`.
pub fn slice(s: &Vec<char>, from: usize, to: usize) -> (out: Vec<char>)
    ensures
        out@ == part(s@, from as int, to as int),
{
    let mut out: Vec<char> = Vec::new();
    if from > to || to > s.len() {
        return out;
    }
    let mut i: usize = from;
    while i < to
        invariant
            from <= i <= to <= s.len(),
            out@ == s@.subrange(from as int, i as int),
        decreases to - i,
    {
        out.push(s[i]);
        proof {
            assert(s@.subrange(from as int, i + 1) == s@.subrange(from as int, i as int).push(
                s@[i as int],
            ));
        }
        i += 1;
    }
    out
}

/// Appends the characters of `tail` to `dst`.
pub fn push_all(dst: &mut Vec<char>, tail: &Vec<char>)
    ensures
        final(dst)@ == old(dst)@ + tail@,
{
    let mut i: usize = 0;
    while i < tail.len()
        invariant
            i <= tail.len(),
            dst@ == old(dst)@ + tail@.take(i as int),
        decreases tail.len() - i,
    {
        dst.push(tail[i]);
        proof {
            assert(tail@.take(i + 1) == tail@.take(i as int).push(tail@[i as int]));
        }
        i += 1;
    }
    proof {
        assert(tail@.take(tail.len() as int) == tail@);
    }
}

/// The two texts one after the other.
pub fn concat(a: &Vec<char>, b: &Vec<char>) -> (out: Vec<char>)
    ensures
        out@ == a@ + b@,
{
    let mut out: Vec<char> = slice(a, 0, a.len());
    assert(a@.subrange(0, a.len() as int) == a@);
    push_all(&mut out, b);
    out
}

/// Whether trimming removes `c`: it is listed in `set`, or it is white
/// space and `spaces` is set.
pub open spec fn strips(c: char, set: Seq<char>, spaces: bool) -> bool {
    set.contains(c) || (spaces && white(c))
}

/// `s` without its leading run of stripped characters.
pub open spec fn stripped_start(s: Seq<char>, set: Seq<char>, spaces: bool) -> Seq<char>
    decreases s.len(),
{
    if s.len() > 0 && strips(s[0], set, spaces) {
        stripped_start(s.drop_first(), set, spaces)
    } else {
        s
    }
}

/// `s` without its trailing run of stripped characters.
pub open spec fn stripped_end(s: Seq<char>, set: Seq<char>, spaces: bool) -> Seq<char>
    decreases s.len(),
{
    if s.len() > 0 && strips(s.last(), set, spaces) {
        stripped_end(s.drop_last(), set, spaces)
    } else {
        s
    }
}

/// `s` without stripped characters at either end.
pub open spec fn stripped(s: Seq<char>, set: Seq<char>, spaces: bool) -> Seq<char> {
    stripped_end(stripped_start(s, set, spaces), set, spaces)
}

/// `s` without white space at either end.
pub open spec fn trimmed(s: Seq<char>) -> Seq<char> {
    stripped(s, Seq::empty(), true)
}

/// `s` without any leading repetitions of `p`.
pub open spec fn without_prefixes(s: Seq<char>, p: Seq<char>) -> Seq<char>
    decreases s.len(),
{
    if p.len() > 0 && has_prefix(s, p) {
        without_prefixes(s.skip(p.len() as int), p)
    } else {
        s
    }
}

/// `s` without any trailing repetitions of `p`.
pub open spec fn without_suffixes(s: Seq<char>, p: Seq<char>) -> Seq<char>
    decreases s.len(),
{
    if p.len() > 0 && has_suffix(s, p) {
        without_suffixes(s.take(s.len() - p.len()), p)
    } else {
        s
    }
}

/// Whether `set` holds the character.
pub fn in_set(c: char, set: &Vec<char>) -> (r: bool)
    ensures
        r == set@.contains(c),
{
    let mut i: usize = 0;
    while i < set.len()
        invariant
            i <= set.len(),
            forall|j: int| 0 <= j < i ==> set@[j] != c,
        decreases set.len() - i,
    {
        if set[i] == c {
            return true;
        }
        i += 1;
    }
    false
}

fn is_stripped(c: char, set: &Vec<char>, spaces: bool) -> (r: bool)
    ensures
        r == strips(c, set@, spaces),
{
    in_set(c, set) || (spaces && is_white(c))
}

/// Index at which `stripped_start` begins.
fn strip_start_index(s: &Vec<char>, set: &Vec<char>, spaces: bool) -> (a: usize)
    ensures
        a <= s.len(),
        stripped_start(s@, set@, spaces) == s@.skip(a as int),
{
    let mut a: usize = 0;
    proof {
        assert(s@.skip(0) == s@);
    }
    while a < s.len() && is_stripped(s[a], set, spaces)
        invariant
            a <= s.len(),
            stripped_start(s@, set@, spaces) == stripped_start(s@.skip(a as int), set@, spaces),
        decreases s.len() - a,
    {
        proof {
            assert(s@.skip(a as int).drop_first() == s@.skip(a + 1));
        }
        a += 1;
    }
    a
}

/// Index at which `stripped_end` of the part from `a` on ends.
fn strip_end_index(s: &Vec<char>, a: usize, set: &Vec<char>, spaces: bool) -> (b: usize)
    requires
        a <= s.len(),
    ensures
        a <= b <= s.len(),
        stripped_end(s@.skip(a as int), set@, spaces) == s@.subrange(a as int, b as int),
{
    let mut b: usize = s.len();
    proof {
        assert(s@.subrange(a as int, s.len() as int) == s@.skip(a as int));
    }
    while b > a && is_stripped(s[b - 1], set, spaces)
        invariant
            a <= b <= s.len(),
            stripped_end(s@.skip(a as int), set@, spaces) == stripped_end(
                s@.subrange(a as int, b as int),
                set@,
                spaces,
            ),
        decreases b,
    {
        proof {
            assert(s@.subrange(a as int, b as int).drop_last() == s@.subrange(a as int, b - 1));
        }
        b -= 1;
    }
    b
}

/// The text without its leading run of stripped characters.
pub fn strip_start(s: &Vec<char>, set: &Vec<char>, spaces: bool) -> (out: Vec<char>)
    ensures
        out@ == stripped_start(s@, set@, spaces),
{
    let a = strip_start_index(s, set, spaces);
    slice(s, a, s.len())
}

/// The text without its trailing run of stripped characters.
pub fn strip_end(s: &Vec<char>, set: &Vec<char>, spaces: bool) -> (out: Vec<char>)
    ensures
        out@ == stripped_end(s@, set@, spaces),
{
    let b = strip_end_index(s, 0, set, spaces);
    proof {
        assert(s@.skip(0) == s@);
    }
    slice(s, 0, b)
}

/// The text without stripped characters at either end.
pub fn strip(s: &Vec<char>, set: &Vec<char>, spaces: bool) -> (out: Vec<char>)
    ensures
        out@ == stripped(s@, set@, spaces),
{
    let a = strip_start_index(s, set, spaces);
    let b = strip_end_index(s, a, set, spaces);
    slice(s, a, b)
}

/// The text without white space at either end.
pub fn trim(s: &Vec<char>) -> (out: Vec<char>)
    ensures
        out@ == trimmed(s@),
{
    let none: Vec<char> = Vec::new();
    assert(none@ == Seq::<char>::empty());
    strip(s, &none, true)
}

/// The text without leading repetitions of `p`.
pub fn trim_start_matches(s: &Vec<char>, p: &Vec<char>) -> (out: Vec<char>)
    ensures
        out@ == without_prefixes(s@, p@),
{
    let mut a: usize = 0;
    proof {
        assert(s@.skip(0) == s@);
    }
    while p.len() > 0 && matches_at(s, p, a)
        invariant
            a <= s.len(),
            without_prefixes(s@, p@) == without_prefixes(s@.skip(a as int), p@),
        decreases s.len() - a,
    {
        proof {
            assert(s@.skip(a as int).subrange(0, p.len() as int) == s@.subrange(
                a as int,
                a + p.len(),
            ));
            assert(s@.skip(a as int).skip(p.len() as int) == s@.skip(a + p.len()));
        }
        a += p.len();
    }
    proof {
        if p.len() > 0 && a + p.len() <= s.len() {
            assert(s@.skip(a as int).subrange(0, p.len() as int) == s@.subrange(
                a as int,
                a + p.len(),
            ));
        }
    }
    slice(s, a, s.len())
}

/// The text without trailing repetitions of `p`.
pub fn trim_end_matches(s: &Vec<char>, p: &Vec<char>) -> (out: Vec<char>)
    ensures
        out@ == without_suffixes(s@, p@),
{
    let mut b: usize = s.len();
    proof {
        assert(s@.take(s.len() as int) == s@);
    }
    while p.len() > 0 && b >= p.len() && matches_at(s, p, b - p.len())
        invariant
            b <= s.len(),
            without_suffixes(s@, p@) == without_suffixes(s@.take(b as int), p@),
        decreases b,
    {
        proof {
            assert(s@.take(b as int).subrange(b - p.len(), b as int) == s@.subrange(
                b - p.len(),
                b as int,
            ));
            assert(s@.take(b as int).take(b - p.len()) == s@.take(b - p.len()));
        }
        b -= p.len();
    }
    proof {
        if p.len() > 0 && b >= p.len() {
            assert(s@.take(b as int).subrange(b - p.len(), b as int) == s@.subrange(
                b - p.len(),
                b as int,
            ));
        }
    }
    slice(s, 0, b)
}

/// Whether `list` holds a text equal to `s`.
pub fn holds_text(list: &Vec<Vec<char>>, s: &Vec<char>) -> (r: bool)
    ensures
        r == views(list@).contains(s@),
{
    let mut i: usize = 0;
    while i < list.len()
        invariant
            i <= list.len(),
            forall|j: int| 0 <= j < i ==> views(list@)[j] != s@,
        decreases list.len() - i,
    {
        if same(&list[i], s) {
            assert(views(list@)[i as int] == s@);
            return true;
        }
        i += 1;
    }
    false
}

/// A copy of a text.
pub fn copy(s: &Vec<char>) -> (out: Vec<char>)
    ensures
        out@ == s@,
{
    let out = slice(s, 0, s.len());
    assert(s@.subrange(0, s.len() as int) == s@);
    out
}

/// Appends a text to a list of texts.
pub fn push_text(list: &mut Vec<Vec<char>>, s: Vec<char>)
    ensures
        views(final(list)@) == views(old(list)@).push(s@),
{
    list.push(s);
    assert(views(list@) =~= views(old(list)@).push(s@));
}

/// The strings that the texts write.
pub fn strings_of(list: &Vec<Vec<char>>) -> (out: Vec<String>)
    ensures
        out@.len() == list@.len(),
        forall|i: int| 0 <= i < out@.len() ==> (#[trigger] out@[i])@ == list@[i]@,
{
    let mut out: Vec<String> = Vec::new();
    let mut i: usize = 0;
    while i < list.len()
        invariant
            i <= list.len(),
            out@.len() == i,
            forall|j: int| 0 <= j < i ==> (#[trigger] out@[j])@ == list@[j]@,
        decreases list.len() - i,
    {
        out.push(string_of(&list[i]));
        i += 1;
    }
    out
}

/// The part of `s` before its first character that is in `set`.
pub open spec fn prefix_before(s: Seq<char>, set: Seq<char>) -> Seq<char>
    decreases s.len(),
{
    if s.len() == 0 || set.contains(s[0]) {
        Seq::empty()
    } else {
        seq![s[0]] + prefix_before(s.drop_first(), set)
    }
}

/// The part of `s` before its first character that is in `set`.
pub fn take_until(s: &Vec<char>, set: &Vec<char>) -> (out: Vec<char>)
    ensures
        out@ == prefix_before(s@, set@),
{
    let mut out: Vec<char> = Vec::new();
    let mut i: usize = 0;
    proof {
        assert(s@.skip(0) == s@);
        assert(out@ + prefix_before(s@, set@) == prefix_before(s@, set@));
    }
    while i < s.len() && !in_set(s[i], set)
        invariant
            i <= s.len(),
            out@ + prefix_before(s@.skip(i as int), set@) == prefix_before(s@, set@),
        decreases s.len() - i,
    {
        proof {
            assert(s@.skip(i as int).drop_first() == s@.skip(i + 1));
            assert(out@ + (seq![s@[i as int]] + prefix_before(s@.skip(i + 1), set@)) == out@.push(
                s@[i as int],
            ) + prefix_before(s@.skip(i + 1), set@));
        }
        out.push(s[i]);
        i += 1;
    }
    proof {
        assert(out@ + Seq::<char>::empty() == out@);
    }
    out
}

/// The lower-case form of a text, as Unicode defines it.
pub uninterp spec fn lowercase(s: Seq<char>) -> Seq<char>;

/// `str::to_lowercase`: the lower-case form of a text. The contract only
/// names it.
#[verifier::external_body]
pub(crate) fn to_lowercase(s: &Vec<char>) -> (out: Vec<char>)
    ensures
        out@ == lowercase(s@),
{
    String::from_iter(s.iter()).to_lowercase().chars().collect()
}

/// The text without its control characters.
pub open spec fn printable(s: Seq<char>) -> Seq<char>
    decreases s.len(),
{
    if s.len() == 0 {
        Seq::empty()
    } else if control(s.last()) {
        printable(s.drop_last())
    } else {
        printable(s.drop_last()).push(s.last())
    }
}

/// The text without its control characters.
pub fn drop_controls(s: &Vec<char>) -> (out: Vec<char>)
    ensures
        out@ == printable(s@),
{
    let mut out: Vec<char> = Vec::new();
    let mut i: usize = 0;
    assert(s@.take(0) =~= Seq::<char>::empty());
    while i < s.len()
        invariant
            i <= s.len(),
            out@ == printable(s@.take(i as int)),
        decreases s.len() - i,
    {
        proof {
            assert(s@.take(i + 1).drop_last() == s@.take(i as int));
            assert(s@.take(i + 1).last() == s@[i as int]);
        }
        if !is_control(s[i]) {
            out.push(s[i]);
        }
        i += 1;
    }
    proof {
        assert(s@.take(s.len() as int) == s@);
    }
    out
}

/// Every character of `s` is an ASCII letter.
pub open spec fn all_letters(s: Seq<char>) -> bool {
    forall|i: int| 0 <= i < s.len() ==> letter(#[trigger] s[i])
}

/// Whether every character is an ASCII letter.
pub fn is_all_letters(s: &Vec<char>) -> (r: bool)
    ensures
        r == all_letters(s@),
{
    let mut i: usize = 0;
    while i < s.len()
        invariant
            i <= s.len(),
            forall|j: int| 0 <= j < i ==> letter(#[trigger] s@[j]),
        decreases s.len() - i,
    {
        if !is_letter(s[i]) {
            return false;
        }
        i += 1;
    }
    true
}

} // verus!
