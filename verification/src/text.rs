//! Character-level helpers shared by the parsers and formatters: conversion
//! between `str`/`String` and `Vec<char>`, trimming, and decimal and
//! hexadecimal numerals with the same meaning as Rust's `FromStr` and `{}` /
//! `{:02x}` formatting of integers.
use vstd::prelude::*;

verus! {

// ---------------------------------------------------------------------------
// Specifications
// ---------------------------------------------------------------------------
/// Rust's `char::is_whitespace`: the Unicode `White_Space` property.
pub open spec fn is_white(c: char) -> bool {
    ||| ('\t' <= c && c <= '\r')
    ||| c == ' '
    ||| c == '\u{85}'
    ||| c == '\u{a0}'
    ||| c == '\u{1680}'
    ||| ('\u{2000}' <= c && c <= '\u{200a}')
    ||| c == '\u{2028}'
    ||| c == '\u{2029}'
    ||| c == '\u{202f}'
    ||| c == '\u{205f}'
    ||| c == '\u{3000}'
}

/// `s` without its leading characters that satisfy `p`.
pub open spec fn strip_leading(s: Seq<char>, p: spec_fn(char) -> bool) -> Seq<char>
    decreases s.len(),
{
    if s.len() > 0 && p(s[0]) {
        strip_leading(s.skip(1), p)
    } else {
        s
    }
}

/// `s` without its trailing characters that satisfy `p`.
pub open spec fn strip_trailing(s: Seq<char>, p: spec_fn(char) -> bool) -> Seq<char>
    decreases s.len(),
{
    if s.len() > 0 && p(s.last()) {
        strip_trailing(s.drop_last(), p)
    } else {
        s
    }
}

/// `str::trim_matches(p)`: both ends stripped.
pub open spec fn strip_both(s: Seq<char>, p: spec_fn(char) -> bool) -> Seq<char> {
    strip_trailing(strip_leading(s, p), p)
}

/// `str::trim`.
pub open spec fn trim(s: Seq<char>) -> Seq<char> {
    strip_both(s, |c: char| is_white(c))
}

pub open spec fn is_digit(c: char) -> bool {
    '0' <= c && c <= '9'
}

pub open spec fn digit_value(c: char) -> nat {
    ((c as int) - ('0' as int)) as nat
}

pub open spec fn all_digits(s: Seq<char>) -> bool {
    forall|i: int| 0 <= i < s.len() ==> is_digit(#[trigger] s[i])
}

/// The number that a string of decimal digits denotes.
pub open spec fn digits_value(s: Seq<char>) -> nat
    decreases s.len(),
{
    if s.len() == 0 {
        0
    } else {
        digits_value(s.drop_last()) * 10 + digit_value(s.last())
    }
}

/// `<uN as FromStr>::from_str` for an unsigned type whose maximum is `max`:
/// one optional `+`, then at least one decimal digit, and a value that fits.
pub open spec fn parse_unsigned(s: Seq<char>, max: nat) -> Option<nat> {
    let d = if s.len() > 0 && s[0] == '+' {
        s.skip(1)
    } else {
        s
    };
    if d.len() > 0 && all_digits(d) && digits_value(d) <= max {
        Some(digits_value(d))
    } else {
        None
    }
}

/// `<usize as FromStr>::from_str`.
pub open spec fn parse_usize_spec(s: Seq<char>) -> Option<nat> {
    parse_unsigned(s, usize::MAX as nat)
}

/// `<u64 as FromStr>::from_str`.
pub open spec fn parse_u64_spec(s: Seq<char>) -> Option<nat> {
    parse_unsigned(s, u64::MAX as nat)
}

/// `<i32 as FromStr>::from_str`: one optional sign, at least one digit, and
/// a value in range.
pub open spec fn parse_i32_spec(s: Seq<char>) -> Option<int> {
    if s.len() > 0 && s[0] == '-' {
        let d = s.skip(1);
        if d.len() > 0 && all_digits(d) && digits_value(d) <= 0x8000_0000 {
            Some(-(digits_value(d) as int))
        } else {
            None
        }
    } else {
        match parse_unsigned(s, 0x7fff_ffff) {
            Some(v) => Some(v as int),
            None => None,
        }
    }
}

pub open spec fn digit_char(d: nat) -> char {
    ((d + ('0' as nat)) as u8) as char
}

/// The decimal numeral of `n`, as `{}` formats an unsigned integer.
pub open spec fn decimal(n: nat) -> Seq<char>
    decreases n,
{
    if n < 10 {
        seq![digit_char(n)]
    } else {
        decimal(n / 10).push(digit_char(n % 10))
    }
}

pub open spec fn hex_char(d: nat) -> char {
    if d < 10 {
        ((d + ('0' as nat)) as u8) as char
    } else {
        ((d - 10 + ('a' as nat)) as u8) as char
    }
}

/// `{:02x}` of a value below 256: two lower-case hexadecimal digits.
pub open spec fn hex2(n: nat) -> Seq<char> {
    seq![hex_char(n / 16), hex_char(n % 16)]
}

// ---------------------------------------------------------------------------
// Lemmas
// ---------------------------------------------------------------------------
pub proof fn lemma_strip_leading_index(s: Seq<char>, p: spec_fn(char) -> bool, k: int)
    requires
        0 <= k <= s.len(),
        forall|i: int| 0 <= i < k ==> p(#[trigger] s[i]),
        k == s.len() || !p(s[k]),
    ensures
        strip_leading(s, p) == s.skip(k),
    decreases k,
{
    if k == 0 {
        assert(s.skip(0) == s);
    } else {
        let t = s.skip(1);
        assert forall|i: int| 0 <= i < k - 1 implies p(#[trigger] t[i]) by {
            assert(t[i] == s[i + 1]);
        }
        if k < s.len() {
            assert(t[k - 1] == s[k]);
        }
        lemma_strip_leading_index(t, p, k - 1);
        assert(t.skip(k - 1) == s.skip(k));
    }
}

pub proof fn lemma_strip_trailing_index(s: Seq<char>, p: spec_fn(char) -> bool, k: int)
    requires
        0 <= k <= s.len(),
        forall|i: int| k <= i < s.len() ==> p(#[trigger] s[i]),
        k == 0 || !p(s[k - 1]),
    ensures
        strip_trailing(s, p) == s.take(k),
    decreases s.len() - k,
{
    if k == s.len() {
        assert(s.take(k) == s);
    } else {
        let t = s.drop_last();
        assert forall|i: int| k <= i < t.len() implies p(#[trigger] t[i]) by {
            assert(t[i] == s[i]);
        }
        if k > 0 {
            assert(t[k - 1] == s[k - 1]);
        }
        lemma_strip_trailing_index(t, p, k);
        assert(t.take(k) == s.take(k));
    }
}

proof fn lemma_strip_leading_first(s: Seq<char>, p: spec_fn(char) -> bool)
    ensures
        strip_leading(s, p).len() > 0 ==> !p(strip_leading(s, p)[0]),
        exists|k: int| 0 <= k <= s.len() && strip_leading(s, p) == s.skip(k),
    decreases s.len(),
{
    if s.len() > 0 && p(s[0]) {
        lemma_strip_leading_first(s.skip(1), p);
        let k = choose|k: int|
            0 <= k <= s.skip(1).len() && strip_leading(s.skip(1), p) == s.skip(1).skip(k);
        assert(s.skip(1).skip(k) == s.skip(k + 1));
    } else {
        assert(s.skip(0) == s);
    }
}

proof fn lemma_strip_trailing_edges(s: Seq<char>, p: spec_fn(char) -> bool)
    ensures
        strip_trailing(s, p).len() > 0 ==> !p(strip_trailing(s, p).last()),
        exists|k: int| 0 <= k <= s.len() && strip_trailing(s, p) == s.take(k),
    decreases s.len(),
{
    if s.len() > 0 && p(s.last()) {
        lemma_strip_trailing_edges(s.drop_last(), p);
        let k = choose|k: int|
            0 <= k <= s.drop_last().len() && strip_trailing(s.drop_last(), p) == s.drop_last().take(k);
        assert(s.drop_last().take(k) == s.take(k));
    } else {
        assert(s.take(s.len() as int) == s);
    }
}

/// A trimmed string neither starts nor ends with white space.
pub proof fn lemma_trim_edges(s: Seq<char>)
    ensures
        trim(s).len() > 0 ==> !is_white(trim(s)[0]) && !is_white(trim(s).last()),
{
    let p = |c: char| is_white(c);
    let l = strip_leading(s, p);
    lemma_strip_leading_first(s, p);
    lemma_strip_trailing_edges(l, p);
    let t = strip_trailing(l, p);
    if t.len() > 0 {
        let k = choose|k: int| 0 <= k <= l.len() && t == l.take(k);
        assert(t[0] == l[0]);
    }
}

pub proof fn lemma_digits_push(s: Seq<char>, c: char)
    ensures
        digits_value(s.push(c)) == digits_value(s) * 10 + digit_value(c),
{
    assert(s.push(c).drop_last() == s);
}

// ---------------------------------------------------------------------------
// Conversions between strings and character vectors
// ---------------------------------------------------------------------------
/// Appends one character (`String::push`).
#[verifier::external_body]
pub fn push_char(s: &mut String, c: char)
    ensures
        final(s)@ == old(s)@.push(c),
{
    s.push(c);
}

/// The characters of `s`, in order.
pub fn chars_of(s: &str) -> (v: Vec<char>)
    ensures
        v@ == s@,
{
    let mut v: Vec<char> = Vec::new();
    for c in it: s.chars()
        invariant
            v@ == it.seq().take(it.index() as int),
    {
        v.push(c);
    }
    v
}

/// Appends `v[lo..hi]` to `s`.
pub fn push_chars(s: &mut String, v: &Vec<char>, lo: usize, hi: usize)
    requires
        lo <= hi <= v.len(),
    ensures
        final(s)@ == old(s)@ + v@.subrange(lo as int, hi as int),
{
    let mut i = lo;
    while i < hi
        invariant
            lo <= i <= hi <= v.len(),
            s@ == old(s)@ + v@.subrange(lo as int, i as int),
        decreases hi - i,
    {
        push_char(s, v[i]);
        assert(v@.subrange(lo as int, i + 1) == v@.subrange(lo as int, i as int).push(v@[i as int]));
        i += 1;
    }
}

/// A string holding `v[lo..hi]`.
pub fn string_of(v: &Vec<char>, lo: usize, hi: usize) -> (s: String)
    requires
        lo <= hi <= v.len(),
    ensures
        s@ == v@.subrange(lo as int, hi as int),
{
    let mut s = String::new();
    push_chars(&mut s, v, lo, hi);
    s
}

/// A string holding the characters of the literal (or slice) `t`.
pub fn string_from(t: &str) -> (s: String)
    ensures
        s@ == t@,
{
    t.to_owned()
}

/// Whether `a[lo..hi]` spells `b`.
pub fn chars_equal(a: &Vec<char>, lo: usize, hi: usize, b: &str) -> (r: bool)
    requires
        lo <= hi <= a.len(),
    ensures
        r == (a@.subrange(lo as int, hi as int) == b@),
{
    let bv = chars_of(b);
    if hi - lo != bv.len() {
        return false;
    }
    let mut i: usize = 0;
    while i < bv.len()
        invariant
            hi - lo == bv.len(),
            lo <= hi <= a.len(),
            bv@ == b@,
            i <= bv.len(),
            forall|j: int| 0 <= j < i ==> a@[lo + j] == bv@[j],
        decreases bv.len() - i,
    {
        if a[lo + i] != bv[i] {
            assert(a@.subrange(lo as int, hi as int)[i as int] != b@[i as int]);
            return false;
        }
        i += 1;
    }
    assert(a@.subrange(lo as int, hi as int) =~= b@);
    true
}

/// Whether the string `a` equals `b`.
pub fn str_equal(a: &str, b: &str) -> (r: bool)
    ensures
        r == (a@ == b@),
{
    let av = chars_of(a);
    let r = chars_equal(&av, 0, av.len(), b);
    assert(av@.subrange(0, av@.len() as int) == av@);
    r
}

// ---------------------------------------------------------------------------
// Trimming
// ---------------------------------------------------------------------------
pub fn is_white_char(c: char) -> (r: bool)
    ensures
        r == is_white(c),
{
    ('\t' <= c && c <= '\r') || c == ' ' || c == '\u{85}' || c == '\u{a0}' || c == '\u{1680}'
        || ('\u{2000}' <= c && c <= '\u{200a}') || c == '\u{2028}' || c == '\u{2029}' || c
        == '\u{202f}' || c == '\u{205f}' || c == '\u{3000}'
}

/// Where `v[lo..hi]` starts once its leading white space is stripped.
fn white_start(v: &Vec<char>, lo: usize, hi: usize) -> (a: usize)
    requires
        lo <= hi <= v.len(),
    ensures
        lo <= a <= hi,
        v@.subrange(a as int, hi as int) == strip_leading(
            v@.subrange(lo as int, hi as int),
            |c: char| is_white(c),
        ),
{
    let ghost s = v@.subrange(lo as int, hi as int);
    let ghost p = |c: char| is_white(c);
    let mut a = lo;
    while a < hi && is_white_char(v[a])
        invariant
            lo <= a <= hi <= v.len(),
            forall|i: int| lo <= i < a ==> is_white(#[trigger] v@[i]),
        decreases hi - a,
    {
        a += 1;
    }
    proof {
        assert forall|i: int| 0 <= i < a - lo implies p(#[trigger] s[i]) by {
            assert(s[i] == v@[lo + i]);
        }
        if a < hi {
            assert(s[a - lo] == v@[a as int]);
        }
        lemma_strip_leading_index(s, p, a - lo);
        assert(s.skip(a - lo) == v@.subrange(a as int, hi as int));
    }
    a
}

/// Where `v[a..hi]` ends once its trailing white space is stripped.
fn white_end(v: &Vec<char>, a: usize, hi: usize) -> (b: usize)
    requires
        a <= hi <= v.len(),
    ensures
        a <= b <= hi,
        v@.subrange(a as int, b as int) == strip_trailing(
            v@.subrange(a as int, hi as int),
            |c: char| is_white(c),
        ),
{
    let ghost t = v@.subrange(a as int, hi as int);
    let ghost p = |c: char| is_white(c);
    let mut b = hi;
    while b > a && is_white_char(v[b - 1])
        invariant
            a <= b <= hi <= v.len(),
            forall|i: int| b <= i < hi ==> is_white(#[trigger] v@[i]),
        decreases b - a,
    {
        b -= 1;
    }
    proof {
        assert forall|i: int| b - a <= i < t.len() implies p(#[trigger] t[i]) by {
            assert(t[i] == v@[a + i]);
        }
        if b > a {
            assert(t[b - a - 1] == v@[b - 1]);
        }
        lemma_strip_trailing_index(t, p, b - a);
        assert(t.take(b - a) == v@.subrange(a as int, b as int));
    }
    b
}

/// The bounds of `v[lo..hi]` trimmed of white space (`str::trim`).
pub fn trim_bounds(v: &Vec<char>, lo: usize, hi: usize) -> (r: (usize, usize))
    requires
        lo <= hi <= v.len(),
    ensures
        lo <= r.0 <= r.1 <= hi,
        v@.subrange(r.0 as int, r.1 as int) == trim(v@.subrange(lo as int, hi as int)),
{
    let a = white_start(v, lo, hi);
    let b = white_end(v, a, hi);
    (a, b)
}

// ---------------------------------------------------------------------------
// Decimal and hexadecimal numerals
// ---------------------------------------------------------------------------
pub fn is_digit_char(c: char) -> (r: bool)
    ensures
        r == is_digit(c),
{
    '0' <= c && c <= '9'
}

/// The value of the digit string `v[lo..hi]`, or `None` when it is not all
/// digits, is empty, or exceeds `max`.
fn digits_up_to(v: &Vec<char>, lo: usize, hi: usize, max: u64) -> (r: Option<u64>)
    requires
        lo <= hi <= v.len(),
    ensures
        ({
            let d = v@.subrange(lo as int, hi as int);
            match r {
                Some(n) => d.len() > 0 && all_digits(d) && digits_value(d) <= max && n
                    == digits_value(d),
                None => !(d.len() > 0 && all_digits(d) && digits_value(d) <= max),
            }
        }),
{
    let ghost d = v@.subrange(lo as int, hi as int);
    if lo == hi {
        return None;
    }
    let mut acc: u64 = 0;
    let mut i = lo;
    while i < hi
        invariant
            lo <= i <= hi <= v.len(),
            d == v@.subrange(lo as int, hi as int),
            all_digits(v@.subrange(lo as int, i as int)),
            acc == digits_value(v@.subrange(lo as int, i as int)),
            acc <= max,
        decreases hi - i,
    {
        let c = v[i];
        let ghost pre = v@.subrange(lo as int, i as int);
        assert(v@.subrange(lo as int, i + 1) == pre.push(c));
        if !is_digit_char(c) {
            assert(d[i - lo] == c);
            return None;
        }
        proof {
            lemma_digits_push(pre, c);
        }
        let dv = (c as u32 - '0' as u32) as u64;
        assert(dv == digit_value(c));
        if dv > max || acc > (max - dv) / 10 {
            proof {
                if dv <= max {
                    assert(acc * 10 + dv > max) by (nonlinear_arith)
                        requires
                            acc > (max - dv) / 10,
                            dv <= max,
                    ;
                }
                if all_digits(d) {
                    lemma_digits_prefix_bound(d, i + 1 - lo);
                    assert(d.take(i + 1 - lo) == pre.push(c));
                }
            }
            return None;
        }
        assert(acc * 10 + dv <= max) by (nonlinear_arith)
            requires
                acc <= (max - dv) / 10,
                dv <= max,
        ;
        acc = acc * 10 + dv;
        i += 1;
    }
    assert(v@.subrange(lo as int, hi as int) == d);
    Some(acc)
}

/// Extending a digit string never makes its value smaller.
pub proof fn lemma_digits_prefix_bound(d: Seq<char>, k: int)
    requires
        0 <= k <= d.len(),
        all_digits(d),
    ensures
        digits_value(d.take(k)) <= digits_value(d),
    decreases d.len() - k,
{
    if k < d.len() {
        lemma_digits_prefix_bound(d, k + 1);
        let t = d.take(k + 1);
        assert(t.drop_last() == d.take(k));
        assert(digits_value(t) == digits_value(d.take(k)) * 10 + digit_value(t.last()));
    } else {
        assert(d.take(k) == d);
    }
}

/// Parses `v[lo..hi]` as `<uN as FromStr>` does for a type whose maximum is `max`.
pub fn parse_unsigned_chars(v: &Vec<char>, lo: usize, hi: usize, max: u64) -> (r: Option<u64>)
    requires
        lo <= hi <= v.len(),
    ensures
        match parse_unsigned(v@.subrange(lo as int, hi as int), max as nat) {
            Some(n) => r == Some(n as u64),
            None => r is None,
        },
{
    let ghost s = v@.subrange(lo as int, hi as int);
    if lo < hi && v[lo] == '+' {
        assert(s[0] == '+');
        assert(s.skip(1) == v@.subrange(lo + 1, hi as int));
        digits_up_to(v, lo + 1, hi, max)
    } else {
        digits_up_to(v, lo, hi, max)
    }
}

/// `<usize as FromStr>::from_str` on `v[lo..hi]`.
pub fn parse_usize_chars(v: &Vec<char>, lo: usize, hi: usize) -> (r: Option<usize>)
    requires
        lo <= hi <= v.len(),
    ensures
        match parse_usize_spec(v@.subrange(lo as int, hi as int)) {
            Some(n) => r == Some(n as usize),
            None => r is None,
        },
{
    match parse_unsigned_chars(v, lo, hi, usize::MAX as u64) {
        Some(n) => Some(n as usize),
        None => None,
    }
}

/// `<u64 as FromStr>::from_str` on `v[lo..hi]`.
pub fn parse_u64_chars(v: &Vec<char>, lo: usize, hi: usize) -> (r: Option<u64>)
    requires
        lo <= hi <= v.len(),
    ensures
        match parse_u64_spec(v@.subrange(lo as int, hi as int)) {
            Some(n) => r == Some(n as u64),
            None => r is None,
        },
{
    parse_unsigned_chars(v, lo, hi, u64::MAX)
}

/// `<i32 as FromStr>::from_str` on `v[lo..hi]`.
pub fn parse_i32_chars(v: &Vec<char>, lo: usize, hi: usize) -> (r: Option<i32>)
    requires
        lo <= hi <= v.len(),
    ensures
        match parse_i32_spec(v@.subrange(lo as int, hi as int)) {
            Some(n) => r == Some(n as i32),
            None => r is None,
        },
{
    let ghost s = v@.subrange(lo as int, hi as int);
    if lo < hi && v[lo] == '-' {
        assert(s[0] == '-');
        assert(s.skip(1) == v@.subrange(lo + 1, hi as int));
        match digits_up_to(v, lo + 1, hi, 0x8000_0000) {
            Some(n) => {
                if n == 0x8000_0000 {
                    Some(i32::MIN)
                } else {
                    Some(-(n as i32))
                }
            },
            None => None,
        }
    } else {
        match parse_unsigned_chars(v, lo, hi, 0x7fff_ffff) {
            Some(n) => Some(n as i32),
            None => None,
        }
    }
}

pub fn digit_to_char(d: u64) -> (c: char)
    requires
        d < 10,
    ensures
        c == digit_char(d as nat),
{
    ((d as u8) + 48u8) as char
}

/// Appends the decimal numeral of `n` to `s`.
pub fn push_decimal(s: &mut String, n: u64)
    ensures
        final(s)@ == old(s)@ + decimal(n as nat),
    decreases n,
{
    if n < 10 {
        push_char(s, digit_to_char(n));
        assert(decimal(n as nat) == seq![digit_char(n as nat)]);
    } else {
        push_decimal(s, n / 10);
        push_char(s, digit_to_char(n % 10));
        assert(decimal(n as nat) == decimal((n / 10) as nat).push(digit_char((n % 10) as nat)));
    }
}

/// `pre`, the decimal numeral of `n`, then `post`.
pub open spec fn decimal_message(pre: Seq<char>, n: nat, post: Seq<char>) -> Seq<char> {
    pre + decimal(n) + post
}

/// `format!("{pre}{n}{post}")`.
pub fn decimal_text(pre: &str, n: u64, post: &str) -> (s: String)
    ensures
        s@ == decimal_message(pre@, n as nat, post@),
{
    let mut s = string_from(pre);
    push_decimal(&mut s, n);
    s.append(post);
    s
}

pub fn hex_digit_to_char(d: u32) -> (c: char)
    requires
        d < 16,
    ensures
        c == hex_char(d as nat),
{
    if d < 10 {
        ((d as u8) + 48u8) as char
    } else {
        ((d as u8) - 10u8 + 97u8) as char
    }
}

/// Appends `{:02x}` of `n` (below 256) to `s`.
pub fn push_hex2(s: &mut String, n: u32)
    requires
        n < 256,
    ensures
        final(s)@ == old(s)@ + hex2(n as nat),
{
    push_char(s, hex_digit_to_char(n / 16));
    push_char(s, hex_digit_to_char(n % 16));
}

} // verus!
