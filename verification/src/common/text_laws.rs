//! What comparing, joining, trimming, writing and reading text come to.

use vstd::prelude::*;

use crate::common::text::{
    before_from, decimal, digit_char, digits_value, i32_value, is_white, joined, text_before,
    trimmed, trimmed_back, trimmed_front,
};

verus! {

/// One text comes before another where at the first place at which they differ it
/// has the lower character, or where it is the beginning of the other.
pub proof fn law_which_text_comes_first(a: Seq<char>, b: Seq<char>, i: int)
    requires
        0 <= i <= a.len(),
        i <= b.len(),
        forall|k: int| 0 <= k < i ==> a[k] == b[k],
    ensures
        i < a.len() && i < b.len() && a[i] as u32 != b[i] as u32 ==> (text_before(a, b) <==> (
        a[i] as u32) < (b[i] as u32)),
        i == a.len() && i < b.len() ==> text_before(a, b),
        i == b.len() ==> !text_before(a, b),
{
    lemma_before_from(a, b, 0, i);
}

proof fn lemma_before_from(a: Seq<char>, b: Seq<char>, from: int, i: int)
    requires
        0 <= from <= i <= a.len(),
        i <= b.len(),
        forall|k: int| 0 <= k < i ==> a[k] == b[k],
    ensures
        before_from(a, b, from) == before_from(a, b, i),
    decreases i - from,
{
    if from < i {
        lemma_before_from(a, b, from + 1, i);
    }
}

/// Texts are joined with the separator between each two of them.
pub proof fn law_joining(texts: Seq<Seq<char>>, separator: Seq<char>, last: Seq<char>)
    ensures
        joined(Seq::empty(), separator) == Seq::<char>::empty(),
        joined(seq![last], separator) == last,
        texts.len() > 0 ==> joined(texts.push(last), separator) == joined(texts, separator)
            + separator + last,
{
    assert(texts.push(last).drop_last() =~= texts);
}

/// The digits written of a number read as that number.
pub proof fn law_written_numbers_read_back(n: nat)
    ensures
        digits_value(decimal(n)) == Some(n as int),
        decimal(n).len() > 0,
    decreases n,
{
    if n >= 10 {
        law_written_numbers_read_back(n / 10);
        let d = digit_char(n as int % 10);
        assert(decimal(n).drop_last() =~= decimal(n / 10));
        assert(decimal(n).last() == d);
        assert(n == 10 * (n / 10) + n % 10);
    }
}

/// No number but 0 is written with a leading 0.
pub proof fn law_no_leading_zeros(n: nat)
    requires
        n > 0,
    ensures
        decimal(n)[0] != '0',
        forall|i: int| 0 <= i < decimal(n).len() ==> 0x30 <= (#[trigger] decimal(n)[i]) as u32 <= 0x39,
    decreases n,
{
    if n >= 10 {
        law_no_leading_zeros(n / 10);
        law_written_numbers_read_back(n / 10);
        assert(decimal(n)[0] == decimal(n / 10)[0]);
        assert forall|i: int| 0 <= i < decimal(n).len() implies 0x30 <= (
        #[trigger] decimal(n)[i]) as u32 <= 0x39 by {
            if i < decimal(n / 10).len() {
                assert(decimal(n)[i] == decimal(n / 10)[i]);
            }
        }
    }
}

/// Trimming takes white space, and only that, from both ends: neither end of what is
/// left is white.
pub proof fn law_trimming(s: Seq<char>)
    ensures
        exists|from: int, to: int|
            {
                &&& 0 <= from <= to <= s.len()
                &&& trimmed(s) == #[trigger] s.subrange(from, to)
                &&& forall|i: int| 0 <= i < from ==> is_white(#[trigger] s[i])
                &&& forall|i: int| to <= i < s.len() ==> is_white(#[trigger] s[i])
            },
        trimmed(s).len() > 0 ==> !is_white(trimmed(s)[0]) && !is_white(trimmed(s).last()),
{
    let from = lemma_trimmed_front(s);
    let front = trimmed_front(s);
    let to = lemma_trimmed_back(front);
    assert(trimmed(s) =~= s.subrange(from, from + to));
    assert forall|i: int| from + to <= i < s.len() implies is_white(#[trigger] s[i]) by {
        assert(front[i - from] == s[i]);
    }
    assert(trimmed(s).len() > 0 ==> trimmed(s)[0] == front[0]);
}

proof fn lemma_trimmed_front(s: Seq<char>) -> (from: int)
    ensures
        0 <= from <= s.len(),
        trimmed_front(s) == s.subrange(from, s.len() as int),
        forall|i: int| 0 <= i < from ==> is_white(#[trigger] s[i]),
        trimmed_front(s).len() > 0 ==> !is_white(trimmed_front(s)[0]),
    decreases s.len(),
{
    if s.len() > 0 && is_white(s[0]) {
        let rest = s.drop_first();
        let k = lemma_trimmed_front(rest);
        assert(rest.subrange(k, rest.len() as int) =~= s.subrange(k + 1, s.len() as int));
        assert forall|i: int| 0 <= i < k + 1 implies is_white(#[trigger] s[i]) by {
            if i > 0 {
                assert(rest[i - 1] == s[i]);
            }
        }
        k + 1
    } else {
        assert(s.subrange(0, s.len() as int) =~= s);
        0
    }
}

proof fn lemma_trimmed_back(s: Seq<char>) -> (to: int)
    ensures
        0 <= to <= s.len(),
        trimmed_back(s) == s.subrange(0, to),
        forall|i: int| to <= i < s.len() ==> is_white(#[trigger] s[i]),
        trimmed_back(s).len() > 0 ==> !is_white(trimmed_back(s).last()),
    decreases s.len(),
{
    if s.len() > 0 && is_white(s.last()) {
        let rest = s.drop_last();
        let k = lemma_trimmed_back(rest);
        assert(rest.subrange(0, k) =~= s.subrange(0, k));
        assert forall|i: int| k <= i < s.len() implies is_white(#[trigger] s[i]) by {
            if i < rest.len() {
                assert(rest[i] == s[i]);
            }
        }
        k
    } else {
        assert(s.subrange(0, s.len() as int) =~= s);
        s.len() as int
    }
}

/// Blanks, tabs and line ends are white; digits and signs are not.
pub proof fn law_white_space()
    ensures
        is_white(' '),
        is_white('\t'),
        is_white('\n'),
        is_white('\r'),
        !is_white('0'),
        !is_white('9'),
        !is_white('-'),
        !is_white('+'),
{
}

/// A number reads with or without a sign in front, and only where it fits; a digit
/// more makes it ten times as large.
pub proof fn law_reading_numbers(digits: Seq<char>, v: int, next: char)
    requires
        digits.len() > 0,
        0x30 <= digits[0] as u32 <= 0x39,
        digits_value(digits) == Some(v),
    ensures
        v <= 0x7fff_ffff && v >= 0 ==> i32_value(digits) == Some(v as i32) && i32_value(
            seq!['+'] + digits,
        ) == Some(v as i32),
        0 <= v <= 0x8000_0000 ==> i32_value(seq!['-'] + digits) == Some((-v) as i32),
        v > 0x7fff_ffff ==> i32_value(digits) is None,
        v > 0x8000_0000 ==> i32_value(seq!['-'] + digits) is None,
        0x30 <= next as u32 <= 0x39 ==> digits_value(digits.push(next)) == Some(
            10 * v + (next as u32 - 0x30),
        ),
        next as u32 > 0x39 || (next as u32) < 0x30 ==> digits_value(digits.push(next)) is None,
        i32_value(Seq::empty()) is None,
{
    assert((seq!['+'] + digits).drop_first() =~= digits);
    assert((seq!['-'] + digits).drop_first() =~= digits);
    assert(digits.push(next).drop_last() =~= digits);
}

} // verus!
