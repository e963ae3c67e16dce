//! Ordering, joining, reading and writing of text.

use vstd::prelude::*;
use vstd::string::{StrSliceExecFns, StringExecFns};

verus! {

// ---------------------------------------------------------------------------
// Order
// ---------------------------------------------------------------------------

/// From position `i` on, `a` comes strictly before `b`, character by character.
pub open spec fn before_from(a: Seq<char>, b: Seq<char>, i: int) -> bool
    decreases b.len() - i,
{
    if i >= b.len() {
        false
    } else if i >= a.len() {
        true
    } else if a[i] != b[i] {
        (a[i] as u32) < (b[i] as u32)
    } else {
        before_from(a, b, i + 1)
    }
}

/// `a` comes strictly before `b`.
pub open spec fn text_before(a: Seq<char>, b: Seq<char>) -> bool {
    before_from(a, b, 0)
}

pub fn is_before(a: &String, b: &String) -> (before: bool)
    ensures
        before == text_before(a@, b@),
{
    let a_str = a.as_str();
    let b_str = b.as_str();
    let a_len: usize = a_str.unicode_len();
    let b_len: usize = b_str.unicode_len();
    let mut i: usize = 0;
    while i < a_len && i < b_len
        invariant
            i <= a_len,
            i <= b_len,
            a_len == a@.len(),
            b_len == b@.len(),
            a_str@ == a@,
            b_str@ == b@,
            text_before(a@, b@) == before_from(a@, b@, i as int),
        decreases a_len - i,
    {
        let x = a_str.get_char(i);
        let y = b_str.get_char(i);
        if x != y {
            return (x as u32) < (y as u32);
        }
        i += 1;
    }
    i < b_len
}

/// Two characters with one code are one character.
proof fn lemma_char_code(x: char, y: char)
    ensures
        x as u32 == y as u32 ==> x == y,
{
}

proof fn lemma_before_irreflexive(a: Seq<char>, i: int)
    ensures
        !before_from(a, a, i),
    decreases a.len() - i,
{
    if i < a.len() {
        lemma_before_irreflexive(a, i + 1);
    }
}

proof fn lemma_before_transitive(a: Seq<char>, b: Seq<char>, c: Seq<char>, i: int)
    requires
        0 <= i,
        before_from(a, b, i),
        before_from(b, c, i),
    ensures
        before_from(a, c, i),
    decreases b.len() - i,
{
    if i < a.len() && i < b.len() && i < c.len() && a[i] == b[i] && b[i] == c[i] {
        lemma_before_transitive(a, b, c, i + 1);
    }
}

proof fn lemma_before_total(a: Seq<char>, b: Seq<char>, i: int)
    requires
        0 <= i <= a.len(),
        i <= b.len(),
        forall|k: int| 0 <= k < i ==> a[k] == b[k],
    ensures
        before_from(a, b, i) || before_from(b, a, i) || a == b,
    decreases b.len() - i,
{
    if i < a.len() && i < b.len() {
        if a[i] == b[i] {
            lemma_before_total(a, b, i + 1);
        } else {
            lemma_char_code(a[i], b[i]);
        }
    } else if a.len() == b.len() {
        assert(a =~= b);
    }
}

/// The order of texts is strict and total.
pub proof fn law_text_order(a: Seq<char>, b: Seq<char>, c: Seq<char>)
    ensures
        !text_before(a, a),
        text_before(a, b) && text_before(b, c) ==> text_before(a, c),
        text_before(a, b) || text_before(b, a) || a == b,
{
    lemma_before_irreflexive(a, 0);
    lemma_before_total(a, b, 0);
    if text_before(a, b) && text_before(b, c) {
        lemma_before_transitive(a, b, c, 0);
    }
}

/// Each text comes strictly before every later one.
pub open spec fn strictly_sorted(texts: Seq<Seq<char>>) -> bool {
    forall|i: int, j: int|
        0 <= i < j < texts.len() ==> text_before(#[trigger] texts[i], #[trigger] texts[j])
}

/// How many texts at the front of `texts`, from `from` on, come before `t`.
pub open spec fn rank_from(texts: Seq<Seq<char>>, t: Seq<char>, from: int) -> int
    decreases texts.len() - from,
{
    if from >= texts.len() || !text_before(texts[from], t) {
        from
    } else {
        rank_from(texts, t, from + 1)
    }
}

/// `texts` with `t` in its place, unless it is there already.
pub open spec fn with_text(texts: Seq<Seq<char>>, t: Seq<char>) -> Seq<Seq<char>> {
    let at = rank_from(texts, t, 0);
    if at < texts.len() && texts[at] == t {
        texts
    } else {
        texts.insert(at, t)
    }
}

proof fn lemma_rank_from(texts: Seq<Seq<char>>, t: Seq<char>, from: int)
    requires
        0 <= from <= texts.len(),
    ensures
        from <= rank_from(texts, t, from) <= texts.len(),
        forall|k: int|
            from <= k < rank_from(texts, t, from) ==> text_before(#[trigger] texts[k], t),
        rank_from(texts, t, from) < texts.len() ==> !text_before(
            texts[rank_from(texts, t, from)],
            t,
        ),
    decreases texts.len() - from,
{
    if from < texts.len() && text_before(texts[from], t) {
        lemma_rank_from(texts, t, from + 1);
    }
}

/// Putting a text in its place keeps the list sorted and adds just that text.
pub proof fn lemma_with_text(texts: Seq<Seq<char>>, t: Seq<char>)
    requires
        strictly_sorted(texts),
    ensures
        strictly_sorted(with_text(texts, t)),
        forall|x: Seq<char>| #[trigger]
            with_text(texts, t).contains(x) <==> texts.contains(x) || x == t,
{
    lemma_rank_from(texts, t, 0);
    let at = rank_from(texts, t, 0);
    let next = with_text(texts, t);
    if at < texts.len() && texts[at] == t {
        assert(texts.contains(t));
    } else {
        assert forall|i: int, j: int| 0 <= i < j < next.len() implies text_before(
            #[trigger] next[i],
            #[trigger] next[j],
        ) by {
            let i0 = if i < at { i } else { i - 1 };
            let j0 = if j < at { j } else { j - 1 };
            if i == at {
                assert(next[j] == texts[j0]);
                law_text_order(texts[at], t, t);
                if j0 > at {
                    law_text_order(t, texts[at], texts[j0]);
                }
            } else if j == at {
                assert(next[i] == texts[i]);
            } else {
                assert(next[i] == texts[i0]);
                assert(next[j] == texts[j0]);
            }
        }
        assert forall|x: Seq<char>| #[trigger] next.contains(x) <==> texts.contains(x) || x == t by {
            if texts.contains(x) {
                let k = choose|k: int| 0 <= k < texts.len() && texts[k] == x;
                let k1 = if k < at { k } else { k + 1 };
                assert(next[k1] == x);
            }
            if x == t {
                assert(next[at] == x);
            }
            if next.contains(x) {
                let k = choose|k: int| 0 <= k < next.len() && next[k] == x;
                if k != at {
                    let k0 = if k < at { k } else { k - 1 };
                    assert(texts[k0] == x);
                }
            }
        }
    }
}

/// Two sorted lists of the same texts are the same list.
pub proof fn lemma_sorted_unique(a: Seq<Seq<char>>, b: Seq<Seq<char>>)
    requires
        strictly_sorted(a),
        strictly_sorted(b),
        forall|x: Seq<char>| #[trigger] a.contains(x) <==> b.contains(x),
    ensures
        a == b,
    decreases a.len(),
{
    if a.len() == 0 {
        if b.len() > 0 {
            assert(b.contains(b[0]));
            assert(a.contains(b[0]));
        }
        assert(a =~= b);
    } else {
        assert(a.contains(a[0]));
        assert(b.contains(a[0]));
        let la = a.last();
        let lb = b.last();
        assert(a.contains(la));
        assert(b.contains(la));
        assert(b.contains(lb));
        assert(a.contains(lb));
        let i = choose|i: int| 0 <= i < b.len() && b[i] == la;
        let j = choose|j: int| 0 <= j < a.len() && a[j] == lb;
        if la != lb {
            assert(text_before(b[i], b[b.len() - 1]));
            assert(text_before(a[j], a[a.len() - 1]));
            law_text_order(la, lb, la);
        }
        let a1 = a.drop_last();
        let b1 = b.drop_last();
        assert forall|x: Seq<char>| #[trigger] a1.contains(x) <==> b1.contains(x) by {
            if a1.contains(x) {
                let k = choose|k: int| 0 <= k < a1.len() && a1[k] == x;
                assert(a[k] == x);
                assert(text_before(a[k], a[a.len() - 1]));
                law_text_order(x, x, x);
                assert(a.contains(x));
                assert(b.contains(x));
                let h = choose|h: int| 0 <= h < b.len() && b[h] == x;
                assert(h < b1.len());
                assert(b1[h] == x);
            }
            if b1.contains(x) {
                let k = choose|k: int| 0 <= k < b1.len() && b1[k] == x;
                assert(b[k] == x);
                assert(text_before(b[k], b[b.len() - 1]));
                law_text_order(x, x, x);
                assert(b.contains(x));
                assert(a.contains(x));
                let h = choose|h: int| 0 <= h < a.len() && a[h] == x;
                assert(h < a1.len());
                assert(a1[h] == x);
            }
        }
        lemma_sorted_unique(a1, b1);
        assert(a =~= a1.push(la));
        assert(b =~= b1.push(lb));
    }
}

/// The texts of a list of strings.
pub open spec fn texts_of(strings: Seq<String>) -> Seq<Seq<char>> {
    strings.map_values(|s: String| s@)
}

/// Put `s` in its place, unless it is there already.
pub fn insert_sorted(strings: &mut Vec<String>, s: String)
    ensures
        texts_of(final(strings)@) == with_text(texts_of(old(strings)@), s@),
{
    let ghost texts = texts_of(strings@);
    let mut at: usize = 0;
    while at < strings.len() && is_before(&strings[at], &s)
        invariant
            at <= strings@.len(),
            *strings == *old(strings),
            texts == texts_of(strings@),
            rank_from(texts, s@, 0) == rank_from(texts, s@, at as int),
        decreases strings@.len() - at,
    {
        assert(texts[at as int] == strings@[at as int]@);
        at += 1;
    }
    if at < strings.len() {
        assert(texts[at as int] == strings@[at as int]@);
    }
    assert(rank_from(texts, s@, 0) == at);
    if at < strings.len() && strings[at] == s {
        return ;
    }
    strings.insert(at, s);
    assert(texts_of(strings@) =~= texts.insert(at as int, s@));
}

/// `texts` one after the other with `separator` between.
pub open spec fn joined(texts: Seq<Seq<char>>, separator: Seq<char>) -> Seq<char>
    decreases texts.len(),
{
    if texts.len() == 0 {
        Seq::empty()
    } else if texts.len() == 1 {
        texts[0]
    } else {
        joined(texts.drop_last(), separator) + separator + texts.last()
    }
}

pub fn join(strings: &Vec<String>, separator: &str) -> (r: String)
    ensures
        r@ == joined(texts_of(strings@), separator@),
{
    let mut text = String::new();
    let ghost texts = texts_of(strings@);
    let mut i: usize = 0;
    assert(texts.take(0) =~= Seq::<Seq<char>>::empty());
    while i < strings.len()
        invariant
            i <= strings@.len(),
            texts == texts_of(strings@),
            text@ == joined(texts.take(i as int), separator@),
        decreases strings@.len() - i,
    {
        assert(texts.take(i + 1).drop_last() =~= texts.take(i as int));
        if i > 0 {
            text.append(separator);
        }
        text.append(strings[i].as_str());
        assert(texts.take(i + 1).last() == strings@[i as int]@);
        assert(text@ =~= joined(texts.take(i + 1), separator@));
        i += 1;
    }
    assert(texts.take(i as int) =~= texts);
    text
}

// ---------------------------------------------------------------------------
// Numbers
// ---------------------------------------------------------------------------

/// The character of a decimal digit.
pub open spec fn digit_char(d: int) -> char {
    if d == 0 {
        '0'
    } else if d == 1 {
        '1'
    } else if d == 2 {
        '2'
    } else if d == 3 {
        '3'
    } else if d == 4 {
        '4'
    } else if d == 5 {
        '5'
    } else if d == 6 {
        '6'
    } else if d == 7 {
        '7'
    } else if d == 8 {
        '8'
    } else {
        '9'
    }
}

/// The decimal digits of `n`, without leading zeros.
pub open spec fn decimal(n: nat) -> Seq<char>
    decreases n,
{
    if n < 10 {
        seq![digit_char(n as int)]
    } else {
        decimal(n / 10).push(digit_char(n as int % 10))
    }
}

fn append_digit(text: &mut String, d: u32)
    requires
        d < 10,
    ensures
        final(text)@ == old(text)@.push(digit_char(d as int)),
{
    proof {
        reveal_strlit("0");
        reveal_strlit("1");
        reveal_strlit("2");
        reveal_strlit("3");
        reveal_strlit("4");
        reveal_strlit("5");
        reveal_strlit("6");
        reveal_strlit("7");
        reveal_strlit("8");
        reveal_strlit("9");
    }
    let digit = if d == 0 {
        "0"
    } else if d == 1 {
        "1"
    } else if d == 2 {
        "2"
    } else if d == 3 {
        "3"
    } else if d == 4 {
        "4"
    } else if d == 5 {
        "5"
    } else if d == 6 {
        "6"
    } else if d == 7 {
        "7"
    } else if d == 8 {
        "8"
    } else {
        "9"
    };
    text.append(digit);
    assert(text@ =~= old(text)@.push(digit_char(d as int)));
}

/// Append the decimal digits of `n`.
pub fn append_decimal(text: &mut String, n: u32)
    ensures
        final(text)@ == old(text)@ + decimal(n as nat),
    decreases n,
{
    if n < 10 {
        append_digit(text, n);
        assert(text@ =~= old(text)@ + decimal(n as nat));
    } else {
        append_decimal(text, n / 10);
        append_digit(text, n % 10);
        assert(text@ =~= old(text)@ + decimal(n as nat));
    }
}

/// White space, as Unicode has it.
pub open spec fn is_white(c: char) -> bool {
    let u = c as u32;
    ||| 0x9 <= u <= 0xd
    ||| u == 0x20
    ||| u == 0x85
    ||| u == 0xa0
    ||| u == 0x1680
    ||| 0x2000 <= u <= 0x200a
    ||| u == 0x2028
    ||| u == 0x2029
    ||| u == 0x202f
    ||| u == 0x205f
    ||| u == 0x3000
}

fn is_whitespace(c: char) -> (b: bool)
    ensures
        b == is_white(c),
{
    let u: u32 = c as u32;
    (0x9 <= u && u <= 0xd) || u == 0x20 || u == 0x85 || u == 0xa0 || u == 0x1680 || (0x2000 <= u
        && u <= 0x200a) || u == 0x2028 || u == 0x2029 || u == 0x202f || u == 0x205f || u == 0x3000
}

/// `s` without the white space at its front.
pub open spec fn trimmed_front(s: Seq<char>) -> Seq<char>
    decreases s.len(),
{
    if s.len() > 0 && is_white(s[0]) {
        trimmed_front(s.drop_first())
    } else {
        s
    }
}

/// `s` without the white space at its end.
pub open spec fn trimmed_back(s: Seq<char>) -> Seq<char>
    decreases s.len(),
{
    if s.len() > 0 && is_white(s.last()) {
        trimmed_back(s.drop_last())
    } else {
        s
    }
}

/// `s` without the white space around it.
pub open spec fn trimmed(s: Seq<char>) -> Seq<char> {
    trimmed_back(trimmed_front(s))
}

pub open spec fn is_digit(c: char) -> bool {
    0x30 <= c as u32 <= 0x39
}

/// The number that a string of digits stands for. `None` where it is empty or
/// holds anything else.
pub open spec fn digits_value(s: Seq<char>) -> Option<int>
    decreases s.len(),
{
    if s.len() == 0 || !is_digit(s.last()) {
        None
    } else if s.len() == 1 {
        Some(s[0] as u32 - 0x30)
    } else {
        match digits_value(s.drop_last()) {
            Some(v) => Some(10 * v + (s.last() as u32 - 0x30)),
            None => None,
        }
    }
}

/// The number that a text stands for: digits, with or without a sign.
pub open spec fn signed_value(s: Seq<char>) -> Option<int> {
    if s.len() > 0 && s[0] == '-' {
        match digits_value(s.drop_first()) {
            Some(v) => Some(-v),
            None => None,
        }
    } else if s.len() > 0 && s[0] == '+' {
        digits_value(s.drop_first())
    } else {
        digits_value(s)
    }
}

/// The number in range that a text stands for.
pub open spec fn i32_value(s: Seq<char>) -> Option<i32> {
    match signed_value(s) {
        Some(v) if i32::MIN <= v <= i32::MAX => Some(v as i32),
        _ => None,
    }
}

proof fn lemma_digits_nonnegative(s: Seq<char>)
    ensures
        digits_value(s) matches Some(v) ==> v >= 0,
    decreases s.len(),
{
    if s.len() > 1 {
        lemma_digits_nonnegative(s.drop_last());
    }
}

/// A prefix that is no number, or one out of range, leaves the whole so.
proof fn lemma_digits_prefix(s: Seq<char>, k: int)
    requires
        0 < k <= s.len(),
    ensures
        digits_value(s.take(k)) is None ==> digits_value(s) is None,
        digits_value(s) is Some ==> digits_value(s.take(k)) is Some && digits_value(s.take(k))->0
            <= digits_value(s)->0,
    decreases s.len(),
{
    if k < s.len() {
        assert(s.drop_last().take(k) =~= s.take(k));
        lemma_digits_prefix(s.drop_last(), k);
        lemma_digits_nonnegative(s.drop_last());
    } else {
        assert(s.take(k) =~= s);
    }
}

/// The value of the digits of `text` from `from` to `to`, capped just above the
/// range of a 32-bit number.
fn parse_digits(text: &str, from: usize, to: usize) -> (r: Option<i64>)
    requires
        from <= to <= text@.len(),
    ensures
        match (r, digits_value(text@.subrange(from as int, to as int))) {
            (Some(v), Some(d)) => if d <= 0x8000_0000 {
                v == d
            } else {
                v > 0x8000_0000
            },
            (None, None) => true,
            (Some(v), None) => false,
            (None, Some(d)) => false,
        },
        r matches Some(v) ==> 0 <= v <= 0x8000_0001,
{
    let ghost s = text@.subrange(from as int, to as int);
    if from == to {
        return None;
    }
    let mut value: i64 = 0;
    let mut i: usize = from;
    proof {
        lemma_digits_nonnegative(s);
    }
    while i < to
        invariant
            from <= i <= to <= text@.len(),
            from < to,
            s == text@.subrange(from as int, to as int),
            i == from ==> value == 0,
            i > from ==> (digits_value(s.take(i - from)) matches Some(d) && d >= 0 && (if d
                <= 0x8000_0000 {
                value == d
            } else {
                value == 0x8000_0001
            })),
            0 <= value <= 0x8000_0001,
        decreases to - i,
    {
        let c = text.get_char(i);
        let u: u32 = c as u32;
        let ghost k = i - from;
        assert(s[k] == c);
        assert(s.take(k + 1).last() == c);
        assert(s.take(k + 1).drop_last() =~= s.take(k));
        if u < 0x30 || u > 0x39 {
            proof {
                assert(digits_value(s.take(k + 1)) is None);
                lemma_digits_prefix(s, k + 1);
            }
            return None;
        }
        let ghost was = value;
        let d: i64 = (u - 0x30) as i64;
        let next: i64 = 10 * value + d;
        value = if next > 0x8000_0000 {
            0x8000_0001
        } else {
            next
        };
        proof {
            assert(s.take(k + 1).len() == k + 1);
            if k == 0 {
                assert(s.take(k + 1)[0] == c);
                assert(digits_value(s.take(k + 1)) == Some(u - 0x30));
            } else {
                assert(digits_value(s.take(k + 1)) == Some(
                    10 * digits_value(s.take(k))->0 + (u - 0x30),
                ));
            }
        }
        i += 1;
    }
    assert(s.take(to - from) =~= s);
    Some(value)
}

/// The number that `text` holds, white space around it aside.
pub fn parse_trimmed_i32(text: &str) -> (r: Option<i32>)
    ensures
        r == i32_value(trimmed(text@)),
{
    let len: usize = text.unicode_len();
    let mut from: usize = 0;
    assert(text@.subrange(0, len as int) =~= text@);
    while from < len && is_whitespace(text.get_char(from))
        invariant
            from <= len,
            len == text@.len(),
            trimmed_front(text@) == trimmed_front(text@.subrange(from as int, len as int)),
        decreases len - from,
    {
        assert(text@.subrange(from as int, len as int).drop_first() =~= text@.subrange(
            from + 1,
            len as int,
        ));
        from += 1;
    }
    let ghost front = text@.subrange(from as int, len as int);
    assert(trimmed_front(text@) == front);
    let mut to: usize = len;
    while from < to && is_whitespace(text.get_char(to - 1))
        invariant
            from <= to <= len,
            len == text@.len(),
            front == text@.subrange(from as int, len as int),
            trimmed_back(front) == trimmed_back(text@.subrange(from as int, to as int)),
        decreases to - from,
    {
        assert(text@.subrange(from as int, to as int).drop_last() =~= text@.subrange(
            from as int,
            to - 1,
        ));
        to -= 1;
    }
    let ghost s = text@.subrange(from as int, to as int);
    assert(trimmed(text@) == s);
    if from == to {
        return None;
    }
    let first = text.get_char(from);
    assert(s[0] == first);
    let negative = first == '-';
    let start: usize = if negative || first == '+' {
        assert(s.drop_first() =~= text@.subrange(from + 1, to as int));
        from + 1
    } else {
        from
    };
    proof {
        lemma_digits_nonnegative(text@.subrange(start as int, to as int));
    }
    match parse_digits(text, start, to) {
        Some(value) => {
            if negative {
                if value <= 0x8000_0000 {
                    Some((0 - value) as i32)
                } else {
                    None
                }
            } else if value <= 0x7fff_ffff {
                Some(value as i32)
            } else {
                None
            }
        },
        None => None,
    }
}

} // verus!
