//! Decimal numbers in text: reading unsigned integers and writing them.

use crate::text::{all_digits, digit, is_digit, slice};
use vstd::prelude::*;

verus! {

/// The value of a decimal digit; 0 for any other character.
pub open spec fn digit_value(c: char) -> nat {
    if digit(c) {
        (c as u32 - 48) as nat
    } else {
        0
    }
}

/// The number that the digits of `s` write in base ten.
pub open spec fn decimal_value(s: Seq<char>) -> nat
    decreases s.len(),
{
    if s.len() == 0 {
        0
    } else {
        decimal_value(s.drop_last()) * 10 + digit_value(s.last())
    }
}

/// `s` without one leading `+`.
pub open spec fn unsigned_part(s: Seq<char>) -> Seq<char> {
    if s.len() > 0 && s[0] == '+' {
        s.drop_first()
    } else {
        s
    }
}

/// The `u32` that `s` writes: an optional `+`, then one or more ASCII
/// digits whose value fits. Anything else writes no number.
pub open spec fn parsed_u32(s: Seq<char>) -> Option<u32> {
    let d = unsigned_part(s);
    if d.len() > 0 && all_digits(d) && decimal_value(d) <= u32::MAX {
        Some(decimal_value(d) as u32)
    } else {
        None
    }
}

/// Length of the leading run of ASCII digits of `s`.
pub open spec fn digit_run(s: Seq<char>) -> nat
    decreases s.len(),
{
    if s.len() > 0 && digit(s[0]) {
        1 + digit_run(s.drop_first())
    } else {
        0
    }
}

/// The ASCII digits of `s`, in order, everything else left out.
pub open spec fn only_digits(s: Seq<char>) -> Seq<char>
    decreases s.len(),
{
    if s.len() == 0 {
        Seq::empty()
    } else if digit(s.last()) {
        only_digits(s.drop_last()).push(s.last())
    } else {
        only_digits(s.drop_last())
    }
}

/// The character that writes a digit below ten.
pub open spec fn digit_char(d: nat) -> char {
    ((48 + d % 10) as u8) as char
}

/// `n` written in base ten, without leading zeros.
pub open spec fn decimal(n: nat) -> Seq<char>
    decreases n,
{
    if n < 10 {
        seq![digit_char(n)]
    } else {
        decimal(n / 10).push(digit_char(n % 10))
    }
}

/// `n` written in base ten with at least two digits.
pub open spec fn decimal2(n: nat) -> Seq<char> {
    if n < 10 {
        seq!['0', digit_char(n)]
    } else {
        decimal(n)
    }
}

/// A prefix of a number's digits writes no more than all the digits do.
pub proof fn lemma_decimal_value_prefix(s: Seq<char>, k: int)
    requires
        0 <= k <= s.len(),
    ensures
        decimal_value(s.take(k)) <= decimal_value(s),
    decreases s.len(),
{
    if k == s.len() {
        assert(s.take(k) == s);
    } else {
        assert(s.drop_last().take(k) == s.take(k));
        lemma_decimal_value_prefix(s.drop_last(), k);
    }
}

/// The `u32` that a text writes.
pub fn parse_u32(s: &Vec<char>) -> (r: Option<u32>)
    ensures
        r == parsed_u32(s@),
{
    let start: usize = if s.len() > 0 && s[0] == '+' {
        1
    } else {
        0
    };
    let ghost d = unsigned_part(s@);
    proof {
        assert(d == s@.skip(start as int));
    }
    if start == s.len() {
        return None;
    }
    let mut acc: u64 = 0;
    let mut i: usize = start;
    proof {
        assert(d.take(0) == Seq::<char>::empty());
    }
    while i < s.len()
        invariant
            start <= i <= s.len(),
            d == s@.skip(start as int),
            d == unsigned_part(s@),
            all_digits(d.take(i - start)),
            acc == decimal_value(d.take(i - start)),
            acc <= u32::MAX,
        decreases s.len() - i,
    {
        let c = s[i];
        proof {
            assert(d[i - start] == c);
            assert(d.take(i - start + 1).drop_last() == d.take(i - start));
            assert(d.take(i - start + 1).last() == c);
        }
        if !is_digit(c) {
            assert(!digit(d[i - start]));
            return None;
        }
        let v: u64 = (c as u32 - 48) as u64;
        acc = acc * 10 + v;
        if acc > 0xFFFF_FFFF {
            proof {
                lemma_decimal_value_prefix(d, i - start + 1);
            }
            return None;
        }
        proof {
            assert forall|j: int| 0 <= j < i - start + 1 implies digit(
                #[trigger] d.take(i - start + 1)[j],
            ) by {
                if j < i - start {
                    assert(d.take(i - start)[j] == d[j]);
                }
            }
        }
        i += 1;
    }
    proof {
        assert(d.take(s.len() - start) == d);
    }
    Some(acc as u32)
}

/// Length of the leading run of ASCII digits.
pub fn count_leading_digits(s: &Vec<char>) -> (n: usize)
    ensures
        n == digit_run(s@),
        n <= s.len(),
{
    let mut i: usize = 0;
    proof {
        assert(s@.skip(0) == s@);
    }
    while i < s.len() && is_digit(s[i])
        invariant
            i <= s.len(),
            digit_run(s@) == i + digit_run(s@.skip(i as int)),
        decreases s.len() - i,
    {
        proof {
            assert(s@.skip(i as int).drop_first() == s@.skip(i + 1));
        }
        i += 1;
    }
    i
}

/// The leading run of ASCII digits.
pub fn leading_digits(s: &Vec<char>) -> (out: Vec<char>)
    ensures
        out@ == s@.take(digit_run(s@) as int),
{
    let n = count_leading_digits(s);
    slice(s, 0, n)
}

/// The ASCII digits of `s`, everything else left out.
pub fn keep_digits(s: &Vec<char>) -> (out: Vec<char>)
    ensures
        out@ == only_digits(s@),
{
    let mut out: Vec<char> = Vec::new();
    let mut i: usize = 0;
    while i < s.len()
        invariant
            i <= s.len(),
            out@ == only_digits(s@.take(i as int)),
        decreases s.len() - i,
    {
        proof {
            assert(s@.take(i + 1).drop_last() == s@.take(i as int));
            assert(s@.take(i + 1).last() == s@[i as int]);
        }
        if is_digit(s[i]) {
            out.push(s[i]);
        }
        i += 1;
    }
    proof {
        assert(s@.take(s.len() as int) == s@);
    }
    out
}

/// `n` in base ten.
pub fn u32_to_text(n: u32) -> (out: Vec<char>)
    ensures
        out@ == decimal(n as nat),
    decreases n,
{
    let last: char = ((48 + n % 10) as u8) as char;
    if n < 10 {
        let mut out: Vec<char> = Vec::new();
        out.push(last);
        assert(out@ == seq![last]);
        out
    } else {
        let mut out = u32_to_text(n / 10);
        out.push(last);
        out
    }
}

/// `n` in base ten, with a leading zero below ten.
pub fn u32_to_text2(n: u32) -> (out: Vec<char>)
    ensures
        out@ == decimal2(n as nat),
{
    if n < 10 {
        let mut out: Vec<char> = Vec::new();
        out.push('0');
        out.push(((48 + n) as u8) as char);
        assert(out@ == seq!['0', digit_char(n as nat)]);
        out
    } else {
        u32_to_text(n)
    }
}

/// The leading run of digits lies within the text and holds digits only.
pub proof fn lemma_digit_run(s: Seq<char>)
    ensures
        digit_run(s) <= s.len(),
        all_digits(s.take(digit_run(s) as int)),
    decreases s.len(),
{
    if s.len() > 0 && digit(s[0]) {
        let rest = s.drop_first();
        lemma_digit_run(rest);
        let n = digit_run(s) as int;
        assert forall|i: int| 0 <= i < n implies digit(#[trigger] s.take(n)[i]) by {
            if i > 0 {
                assert(s.take(n)[i] == rest.take(n - 1)[i - 1]);
            }
        }
    }
}

} // verus!
