//! The brightness slider: its text value read as a byte.
use vstd::prelude::*;

verus! {

/// The digits of a number text: without one leading `+`.
pub open spec fn unsigned_digits(s: Seq<char>) -> Seq<char> {
    if s.len() > 0 && s[0] == '+' {
        s.drop_first()
    } else {
        s
    }
}

/// Rust's reading of a text as a `u8`: an optional `+`, then at least one
/// decimal digit and nothing else, of a value below 256.
pub open spec fn parse_u8_spec(s: Seq<char>) -> Option<u8> {
    let d = unsigned_digits(s);
    if d.len() > 0 && (forall|i: int| 0 <= i < d.len() ==> crate::text::is_digit(#[trigger] d[i])) && crate::text::digits_value(d)
        <= 255 {
        Some(crate::text::digits_value(d) as u8)
    } else {
        None
    }
}

/// A run of digits is worth at least any of its prefixes.
proof fn lemma_digits_value_prefix(s: Seq<char>, i: int)
    requires
        0 <= i <= s.len(),
        forall|j: int| 0 <= j < s.len() ==> crate::text::is_digit(#[trigger] s[j]),
    ensures
        crate::text::digits_value(s.take(i)) <= crate::text::digits_value(s),
    decreases s.len(),
{
    if i < s.len() {
        let p = s.drop_last();
        assert forall|j: int| 0 <= j < p.len() implies crate::text::is_digit(#[trigger] p[j]) by {
            assert(p[j] == s[j]);
        }
        lemma_digits_value_prefix(p, i);
        assert(p.take(i) =~= s.take(i));
    } else {
        assert(s.take(i) =~= s);
    }
}

/// The decimal text of any byte reads back as that byte: a slider position
/// written out in decimal is read as that position.
pub proof fn law_decimal_reads_back(v: u8)
    ensures
        parse_u8_spec(crate::text::decimal(v as nat)) == Some(v),
{
    let d = crate::text::decimal(v as nat);
    crate::text::lemma_decimal_digits(v as nat);
    assert(d[0] != '+') by {
        assert(crate::text::is_digit(d[0]));
    }
    assert(unsigned_digits(d) == d);
}

/// Reads a text as a `u8` the way Rust's `str::parse::<u8>` does.
pub fn parse_u8(text: &str) -> (r: Option<u8>)
    ensures
        r == parse_u8_spec(text@),
{
    let n = text.unicode_len();
    let mut start: usize = 0;
    if n > 0 && text.get_char(0) == '+' {
        start = 1;
    }
    let ghost d = unsigned_digits(text@);
    proof {
        assert(d =~= text@.subrange(start as int, n as int));
    }
    if start == n {
        return None;
    }
    let mut value: u32 = 0;
    let mut i: usize = start;
    while i < n
        invariant
            start <= i <= n,
            n == text@.len(),
            d =~= text@.subrange(start as int, n as int),
            d == unsigned_digits(text@),
            forall|j: int| start <= j < i ==> crate::text::is_digit(#[trigger] text@[j]),
            value == crate::text::digits_value(d.take(i - start)),
            value <= 255,
        decreases n - i,
    {
        let c = text.get_char(i);
        if !('0' <= c && c <= '9') {
            assert(!crate::text::is_digit(d[i - start]));
            return None;
        }
        let digit: u32 = (c as u32) - 48;
        let next: u32 = value * 10 + digit;
        proof {
            assert(d.take(i + 1 - start).drop_last() =~= d.take(i - start));
            assert(d.take(i + 1 - start).last() == c);
        }
        if next > 255 {
            proof {
                if forall|j: int| 0 <= j < d.len() ==> crate::text::is_digit(#[trigger] d[j]) {
                    lemma_digits_value_prefix(d, i + 1 - start);
                }
            }
            return None;
        }
        value = next;
        i = i + 1;
    }
    proof {
        assert(d.take(n - start) =~= d);
        assert forall|j: int| 0 <= j < d.len() implies crate::text::is_digit(#[trigger] d[j]) by {
            assert(d[j] == text@[j + start]);
        }
    }
    Some(value as u8)
}

/// The slider's value: its text read as a `u8`, or 0 when it does not read
/// as one.
pub fn slider_value(text: &str) -> (r: u8)
    ensures
        r == match parse_u8_spec(text@) {
            Some(v) => v,
            None => 0,
        },
{
    match parse_u8(text) {
        Some(v) => v,
        None => 0,
    }
}

} // verus!
