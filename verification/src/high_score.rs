//! The saved best score: its text format, read and written.
//!
//! The score is stored as its decimal digits. Reading accepts what a careful
//! editor might leave behind: surrounding whitespace (any Unicode white space,
//! encoded in UTF-8) and a leading `+`. Anything else, or a value that does not
//! fit in a `u32`, reads as a best score of 0.
use vstd::prelude::*;

verus! {

/// Whether `c` is a one-byte white-space character.
pub open spec fn is_ws1(c: u8) -> bool {
    c == 9 || c == 10 || c == 11 || c == 12 || c == 13 || c == 32
}

/// Whether `a b` is the UTF-8 encoding of a two-byte white-space character
/// (U+0085, U+00A0).
pub open spec fn is_ws2(a: u8, b: u8) -> bool {
    a == 0xC2 && (b == 0x85 || b == 0xA0)
}

/// Whether `a b c` is the UTF-8 encoding of a three-byte white-space character
/// (U+1680, U+2000 to U+200A, U+2028, U+2029, U+202F, U+205F, U+3000).
pub open spec fn is_ws3(a: u8, b: u8, c: u8) -> bool {
    ||| a == 0xE1 && b == 0x9A && c == 0x80
    ||| a == 0xE2 && b == 0x80 && ((0x80 <= c && c <= 0x8A) || c == 0xA8 || c == 0xA9 || c == 0xAF)
    ||| a == 0xE2 && b == 0x81 && c == 0x9F
    ||| a == 0xE3 && b == 0x80 && c == 0x80
}

/// The length of the white-space character that `s` starts with, or 0.
pub open spec fn ws_prefix_len(s: Seq<u8>) -> int {
    if s.len() >= 1 && is_ws1(s[0]) {
        1
    } else if s.len() >= 2 && is_ws2(s[0], s[1]) {
        2
    } else if s.len() >= 3 && is_ws3(s[0], s[1], s[2]) {
        3
    } else {
        0
    }
}

/// The length of the white-space character that `s` ends with, or 0.
pub open spec fn ws_suffix_len(s: Seq<u8>) -> int {
    let n = s.len() as int;
    if n >= 1 && is_ws1(s[n - 1]) {
        1
    } else if n >= 2 && is_ws2(s[n - 2], s[n - 1]) {
        2
    } else if n >= 3 && is_ws3(s[n - 3], s[n - 2], s[n - 1]) {
        3
    } else {
        0
    }
}

/// `s` without its leading white space.
pub open spec fn trim_start(s: Seq<u8>) -> Seq<u8>
    decreases s.len(),
{
    if ws_prefix_len(s) > 0 {
        trim_start(s.skip(ws_prefix_len(s)))
    } else {
        s
    }
}

/// `s` without its trailing white space.
pub open spec fn trim_end(s: Seq<u8>) -> Seq<u8>
    decreases s.len(),
{
    if ws_suffix_len(s) > 0 {
        trim_end(s.take(s.len() - ws_suffix_len(s)))
    } else {
        s
    }
}

/// `s` without white space at either end.
pub open spec fn trimmed(s: Seq<u8>) -> Seq<u8> {
    trim_end(trim_start(s))
}

/// Whether `c` is an ASCII digit.
pub open spec fn is_digit(c: u8) -> bool {
    48 <= c && c <= 57
}

/// Whether every byte of `s` is an ASCII digit.
pub open spec fn all_digits(s: Seq<u8>) -> bool {
    forall|i: int| 0 <= i < s.len() ==> is_digit(#[trigger] s[i])
}

/// The number that the decimal digits `s` spell.
pub open spec fn digits_value(s: Seq<u8>) -> int
    decreases s.len(),
{
    if s.len() == 0 {
        0
    } else {
        digits_value(s.drop_last()) * 10 + (s.last() - 48)
    }
}

/// The digits of `t` after an optional leading `+`.
pub open spec fn unsigned_digits(t: Seq<u8>) -> Seq<u8> {
    if t.len() >= 1 && t[0] == 43 {
        t.skip(1)
    } else {
        t
    }
}

/// `t` read as an unsigned 32-bit number: an optional `+`, then one or more
/// decimal digits, with a value that fits.
pub open spec fn parse_u32(t: Seq<u8>) -> Option<u32> {
    let d = unsigned_digits(t);
    if d.len() >= 1 && all_digits(d) && digits_value(d) <= u32::MAX {
        Some(digits_value(d) as u32)
    } else {
        None
    }
}

/// The best score that the saved text `text` holds: the number it spells once
/// trimmed of white space, or 0 where it spells none.
pub open spec fn saved_score(text: Seq<u8>) -> u32 {
    match parse_u32(trimmed(text)) {
        Some(n) => n,
        None => 0,
    }
}

/// The decimal digits of `n`, most significant first, without leading zeros.
pub open spec fn decimal(n: nat) -> Seq<u8>
    decreases n,
{
    if n < 10 {
        seq![(48 + n) as u8]
    } else {
        decimal(n / 10).push((48 + n % 10) as u8)
    }
}

fn ws_len_at(b: &[u8], i: usize) -> (k: usize)
    requires
        i <= b@.len(),
    ensures
        k == ws_prefix_len(b@.subrange(i as int, b@.len() as int)),
{
    let ghost s = b@.subrange(i as int, b@.len() as int);
    let n = b.len() - i;
    if n >= 1 {
        let c = b[i];
        if c == 9 || c == 10 || c == 11 || c == 12 || c == 13 || c == 32 {
            return 1;
        }
    }
    if n >= 2 {
        let c0 = b[i];
        let c1 = b[i + 1];
        if c0 == 0xC2 && (c1 == 0x85 || c1 == 0xA0) {
            return 2;
        }
    }
    if n >= 3 {
        let c0 = b[i];
        let c1 = b[i + 1];
        let c2 = b[i + 2];
        if (c0 == 0xE1 && c1 == 0x9A && c2 == 0x80) || (c0 == 0xE2 && c1 == 0x80 && ((0x80 <= c2
            && c2 <= 0x8A) || c2 == 0xA8 || c2 == 0xA9 || c2 == 0xAF)) || (c0 == 0xE2 && c1 == 0x81
            && c2 == 0x9F) || (c0 == 0xE3 && c1 == 0x80 && c2 == 0x80) {
            return 3;
        }
    }
    0
}

fn ws_len_before(b: &[u8], lo: usize, hi: usize) -> (k: usize)
    requires
        lo <= hi <= b@.len(),
    ensures
        k == ws_suffix_len(b@.subrange(lo as int, hi as int)),
{
    let n = hi - lo;
    if n >= 1 {
        let c = b[hi - 1];
        if c == 9 || c == 10 || c == 11 || c == 12 || c == 13 || c == 32 {
            return 1;
        }
    }
    if n >= 2 {
        let c0 = b[hi - 2];
        let c1 = b[hi - 1];
        if c0 == 0xC2 && (c1 == 0x85 || c1 == 0xA0) {
            return 2;
        }
    }
    if n >= 3 {
        let c0 = b[hi - 3];
        let c1 = b[hi - 2];
        let c2 = b[hi - 1];
        if (c0 == 0xE1 && c1 == 0x9A && c2 == 0x80) || (c0 == 0xE2 && c1 == 0x80 && ((0x80 <= c2
            && c2 <= 0x8A) || c2 == 0xA8 || c2 == 0xA9 || c2 == 0xAF)) || (c0 == 0xE2 && c1 == 0x81
            && c2 == 0x9F) || (c0 == 0xE3 && c1 == 0x80 && c2 == 0x80) {
            return 3;
        }
    }
    0
}

proof fn lemma_digits_value_nonneg(s: Seq<u8>)
    requires
        all_digits(s),
    ensures
        digits_value(s) >= 0,
    decreases s.len(),
{
    if s.len() > 0 {
        lemma_digits_value_nonneg(s.drop_last());
    }
}

proof fn lemma_digits_value_prefix(s: Seq<u8>, m: int)
    requires
        all_digits(s),
        0 <= m <= s.len(),
    ensures
        digits_value(s.take(m)) <= digits_value(s),
    decreases s.len() - m,
{
    if m < s.len() {
        lemma_digits_value_prefix(s, m + 1);
        assert(s.take(m + 1).drop_last() =~= s.take(m));
        lemma_digits_value_nonneg(s.take(m));
        assert(is_digit(s[m]));
    } else {
        assert(s.take(m) =~= s);
    }
}

/// The best score that the saved text `text` holds: the decimal number it
/// spells once trimmed of white space (an optional leading `+` allowed), or 0
/// where it spells none or one that does not fit in a `u32`.
pub fn parse_high_score(text: &[u8]) -> (score: u32)
    ensures
        score == saved_score(text@),
{
    let len = text.len();
    let mut i: usize = 0;
    assert(text@.subrange(0, len as int) =~= text@);
    let mut k: usize = ws_len_at(text, 0);
    while k > 0
        invariant
            i <= len,
            len == text@.len(),
            k == ws_prefix_len(text@.subrange(i as int, len as int)),
            trim_start(text@) == trim_start(text@.subrange(i as int, len as int)),
        decreases len - i,
    {
        assert(text@.subrange(i as int, len as int).skip(k as int) =~= text@.subrange(
            (i + k) as int,
            len as int,
        ));
        i = i + k;
        k = ws_len_at(text, i);
    }
    assert(trim_start(text@) == text@.subrange(i as int, len as int));
    let mut j: usize = len;
    k = ws_len_before(text, i, j);
    while k > 0
        invariant
            i <= j <= len,
            len == text@.len(),
            k == ws_suffix_len(text@.subrange(i as int, j as int)),
            trimmed(text@) == trim_end(text@.subrange(i as int, j as int)),
        decreases j - i,
    {
        assert(text@.subrange(i as int, j as int).take((j - i - k) as int) =~= text@.subrange(
            i as int,
            (j - k) as int,
        ));
        j = j - k;
        k = ws_len_before(text, i, j);
    }
    let ghost t = text@.subrange(i as int, j as int);
    assert(trimmed(text@) == t);
    if i == j {
        return 0;
    }
    k = i;
    if text[k] == 43 {
        k = k + 1;
        if k == j {
            return 0;
        }
    }
    let start = k;
    let ghost d = text@.subrange(start as int, j as int);
    assert(unsigned_digits(t) =~= d);
    let mut acc: u64 = 0;
    assert(d.take(0) =~= Seq::<u8>::empty());
    while k < j
        invariant
            start <= k <= j <= len,
            len == text@.len(),
            d == text@.subrange(start as int, j as int),
            unsigned_digits(t) == d,
            trimmed(text@) == t,
            d.len() >= 1,
            all_digits(d.take(k - start)),
            acc == digits_value(d.take(k - start)),
            acc <= u32::MAX,
        decreases j - k,
    {
        let c = text[k];
        if c < 48 || c > 57 {
            assert(!is_digit(d[k - start]));
            return 0;
        }
        assert(d.take(k - start + 1).drop_last() =~= d.take(k - start));
        assert(all_digits(d.take(k - start + 1)));
        acc = acc * 10 + (c - 48) as u64;
        if acc > 4294967295 {
            proof {
                if all_digits(d) {
                    lemma_digits_value_prefix(d, k - start + 1);
                }
            }
            return 0;
        }
        k = k + 1;
    }
    assert(d.take(d.len() as int) =~= d);
    acc as u32
}

fn push_decimal(out: &mut Vec<u8>, n: u32)
    ensures
        final(out)@ == old(out)@ + decimal(n as nat),
    decreases n,
{
    if n >= 10 {
        push_decimal(out, n / 10);
    }
    out.push(48 + (n % 10) as u8);
}

/// The text that saves `score`: its decimal digits.
pub fn format_high_score(score: u32) -> (text: Vec<u8>)
    ensures
        text@ == decimal(score as nat),
{
    let mut out: Vec<u8> = Vec::new();
    push_decimal(&mut out, score);
    assert(out@ =~= decimal(score as nat));
    out
}

proof fn lemma_decimal_digits(n: nat)
    ensures
        decimal(n).len() >= 1,
        all_digits(decimal(n)),
        digits_value(decimal(n)) == n,
    decreases n,
{
    if n >= 10 {
        lemma_decimal_digits(n / 10);
        let s = decimal(n);
        assert(s.drop_last() =~= decimal(n / 10));
        assert(s.last() == 48 + n % 10);
        assert((n / 10) * 10 + n % 10 == n);
        assert(digits_value(s) == digits_value(s.drop_last()) * 10 + (s.last() - 48));
        assert(digits_value(s) == (n / 10) * 10 + n % 10);
        assert forall|i: int| 0 <= i < s.len() implies is_digit(#[trigger] s[i]) by {
            if i < s.len() - 1 {
                assert(s[i] == decimal(n / 10)[i]);
            }
        }
    } else {
        assert(decimal(n).drop_last() =~= Seq::<u8>::empty());
        assert(decimal(n).last() == 48 + n);
        assert(digits_value(Seq::<u8>::empty()) == 0);
        assert(digits_value(decimal(n)) == digits_value(decimal(n).drop_last()) * 10 + (
        decimal(n).last() - 48));
    }
}

/// Law: reading back a saved score gives the score that was saved.
pub proof fn lemma_high_score_round_trip(score: u32)
    ensures
        saved_score(decimal(score as nat)) == score,
{
    let s = decimal(score as nat);
    lemma_decimal_digits(score as nat);
    assert(is_digit(s[0]));
    assert(is_digit(s[s.len() - 1]));
    assert(ws_prefix_len(s) == 0);
    assert(trim_start(s) == s);
    assert(ws_suffix_len(s) == 0);
    assert(trim_end(s) == s);
    assert(unsigned_digits(s) == s);
}

} // verus!
