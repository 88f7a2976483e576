//! Running times written in words: hours and minutes.

use crate::number::{decimal_value, parse_u32, parsed_u32, unsigned_part};
use crate::text::{all_digits, chars_of, digit, has_prefix, starts_with, views, white};
use crate::tokens::{flushed, split_whitespace, words, words_from};
use vstd::prelude::*;

verus! {

/// Hours and minutes as read so far.
pub ghost struct Clock {
    pub hours: u32,
    pub minutes: u32,
}

/// The clock after the words from `i` on: a number before a word that
/// starts with `ore` gives the hours, one before a word that starts with
/// `min` the minutes.
pub open spec fn clock_from(tokens: Seq<Seq<char>>, i: int, acc: Clock) -> Clock
    decreases tokens.len() - i,
{
    if i < 0 || i >= tokens.len() {
        acc
    } else {
        let next = match parsed_u32(tokens[i]) {
            Some(n) => if i + 1 < tokens.len() && has_prefix(tokens[i + 1], "ore"@) {
                Clock { hours: n, ..acc }
            } else if i + 1 < tokens.len() && has_prefix(tokens[i + 1], "min"@) {
                Clock { minutes: n, ..acc }
            } else {
                acc
            },
            None => acc,
        };
        clock_from(tokens, i + 1, next)
    }
}

/// Hours and minutes in minutes, held at the largest `u32` where they
/// exceed it.
pub open spec fn total_minutes(c: Clock) -> u32 {
    if c.hours * 60 + c.minutes > u32::MAX {
        u32::MAX
    } else {
        (c.hours * 60 + c.minutes) as u32
    }
}

/// The minutes that a running time in words comes to, such as 102 for
/// `01 ore 42 minuti`; none where it comes to nothing.
pub open spec fn minutes_in_words(text: Seq<char>) -> Option<u32> {
    let total = total_minutes(clock_from(words(text), 0, Clock { hours: 0, minutes: 0 }));
    if total > 0 {
        Some(total)
    } else {
        None
    }
}

/// The minutes that a running time in words comes to.
pub fn parse_hours_minutes(text: &Vec<char>) -> (r: Option<u32>)
    ensures
        r == minutes_in_words(text@),
{
    let tokens = split_whitespace(text);
    let ore = chars_of("ore");
    let min = chars_of("min");
    let mut hours: u32 = 0;
    let mut minutes: u32 = 0;
    let mut i: usize = 0;
    while i < tokens.len()
        invariant
            i <= tokens.len(),
            ore@ == "ore"@,
            min@ == "min"@,
            clock_from(views(tokens@), i as int, Clock { hours, minutes }) == clock_from(
                views(tokens@),
                0,
                Clock { hours: 0, minutes: 0 },
            ),
        decreases tokens.len() - i,
    {
        match parse_u32(&tokens[i]) {
            Some(n) => {
                if i + 1 < tokens.len() && starts_with(&tokens[i + 1], &ore) {
                    hours = n;
                } else if i + 1 < tokens.len() && starts_with(&tokens[i + 1], &min) {
                    minutes = n;
                }
            },
            None => {},
        }
        i += 1;
    }
    let sum: u64 = hours as u64 * 60 + minutes as u64;
    let total: u32 = if sum > 0xFFFF_FFFF {
        0xFFFF_FFFF
    } else {
        sum as u32
    };
    if total > 0 {
        Some(total)
    } else {
        None
    }
}

/// No white space among the characters.
pub open spec fn solid(a: Seq<char>) -> bool {
    forall|i: int| 0 <= i < a.len() ==> !white(#[trigger] a[i])
}

/// A run of characters without white space goes into the word at hand.
pub proof fn lemma_words_solid(a: Seq<char>, s: Seq<char>, cur: Seq<char>)
    requires
        solid(a),
    ensures
        words_from(a + s, cur) == words_from(s, cur + a),
    decreases a.len(),
{
    if a.len() == 0 {
        assert(a + s =~= s);
        assert(cur + a =~= cur);
    } else {
        let rest = a.drop_first();
        assert((a + s)[0] == a[0]);
        assert(!white(a[0]));
        assert((a + s).drop_first() =~= rest + s);
        assert(solid(rest)) by {
            assert forall|i: int| 0 <= i < rest.len() implies !white(#[trigger] rest[i]) by {
                assert(rest[i] == a[i + 1]);
            }
        }
        lemma_words_solid(rest, s, cur.push(a[0]));
        assert(cur.push(a[0]) + rest =~= cur + a);
    }
}

/// A space ends the word at hand.
pub proof fn lemma_words_space(s: Seq<char>, cur: Seq<char>)
    ensures
        words_from(seq![' '] + s, cur) == flushed(cur) + words_from(s, Seq::empty()),
{
    let t = seq![' '] + s;
    assert(t[0] == ' ');
    assert(t.drop_first() =~= s);
}

/// The words of four solid texts with single spaces between.
pub proof fn lemma_four_words(a: Seq<char>, b: Seq<char>, c: Seq<char>, d: Seq<char>)
    requires
        solid(a),
        solid(b),
        solid(c),
        solid(d),
        a.len() > 0,
        b.len() > 0,
        c.len() > 0,
        d.len() > 0,
    ensures
        words(a + seq![' '] + b + seq![' '] + c + seq![' '] + d) == seq![a, b, c, d],
{
    let sp = seq![' '];
    let e = Seq::<char>::empty();
    let t3 = sp + d;
    let t2 = sp + (c + t3);
    let t1 = sp + (b + t2);
    assert(a + sp + b + sp + c + sp + d =~= a + t1);
    lemma_words_solid(a, t1, e);
    assert(e + a =~= a);
    lemma_words_space(b + t2, a);
    lemma_words_solid(b, t2, e);
    assert(e + b =~= b);
    lemma_words_space(c + t3, b);
    lemma_words_solid(c, t3, e);
    assert(e + c =~= c);
    lemma_words_space(d, c);
    assert(d =~= d + e);
    lemma_words_solid(d, e, e);
    assert(e + d =~= d);
    assert(words_from(e, d) == flushed(d));
    assert(seq![a] + (seq![b] + (seq![c] + seq![d])) =~= seq![a, b, c, d]);
}

/// A number written in digits is read as that number.
pub proof fn lemma_digits_parse(h: Seq<char>)
    requires
        h.len() > 0,
        all_digits(h),
        decimal_value(h) <= u32::MAX,
    ensures
        parsed_u32(h) == Some(decimal_value(h) as u32),
        solid(h),
{
    assert(digit(h[0]));
    assert(unsigned_part(h) == h);
    assert forall|i: int| 0 <= i < h.len() implies !white(#[trigger] h[i]) by {
        assert(digit(h[i]));
    }
}

/// A running time of the form `<H> ore <M> minuti` comes to `H * 60 + M`
/// minutes, for every `H` and `M` written in digits whose total is more
/// than nothing and fits a `u32`.
pub proof fn lemma_hours_and_minutes(h: Seq<char>, m: Seq<char>)
    requires
        h.len() > 0,
        m.len() > 0,
        all_digits(h),
        all_digits(m),
        0 < decimal_value(h) * 60 + decimal_value(m) <= u32::MAX,
    ensures
        minutes_in_words(h + " ore "@ + m + " minuti"@) == Some(
            (decimal_value(h) * 60 + decimal_value(m)) as u32,
        ),
{
    reveal_strlit(" ore ");
    reveal_strlit(" minuti");
    reveal_strlit("ore");
    reveal_strlit("min");
    let ore = seq!['o', 'r', 'e'];
    let minuti = seq!['m', 'i', 'n', 'u', 't', 'i'];
    let sp = seq![' '];
    assert(" ore "@ =~= sp + ore + sp);
    assert(" minuti"@ =~= sp + minuti);
    let text = h + " ore "@ + m + " minuti"@;
    assert(text =~= h + sp + ore + sp + m + sp + minuti);
    lemma_digits_parse(h);
    lemma_digits_parse(m);
    assert(solid(ore));
    assert(solid(minuti));
    lemma_four_words(h, ore, m, minuti);
    let tokens = seq![h, ore, m, minuti];
    assert(words(text) == tokens);
    assert(!digit(ore[0]));
    assert(!all_digits(unsigned_part(ore)));
    assert(parsed_u32(ore) is None);
    assert(!digit(minuti[0]));
    assert(!all_digits(unsigned_part(minuti)));
    assert(parsed_u32(minuti) is None);
    assert(has_prefix(ore, "ore"@)) by {
        assert(ore.subrange(0, 3) =~= "ore"@);
    }
    assert(has_prefix(minuti, "min"@)) by {
        assert(minuti.subrange(0, 3) =~= "min"@);
    }
    assert(!has_prefix(minuti, "ore"@)) by {
        assert(minuti.subrange(0, 3)[0] == 'm');
        assert("ore"@[0] == 'o');
    }
    let c0 = Clock { hours: 0, minutes: 0 };
    let c1 = Clock { hours: decimal_value(h) as u32, minutes: 0 };
    let c2 = Clock { hours: decimal_value(h) as u32, minutes: decimal_value(m) as u32 };
    assert(clock_from(tokens, 4, c2) == c2);
    assert(clock_from(tokens, 3, c2) == c2);
    assert(clock_from(tokens, 2, c1) == c2);
    assert(clock_from(tokens, 1, c1) == c2);
    assert(clock_from(tokens, 0, c0) == c2);
}

} // verus!
