//! Reading a whole string as a signed 64-bit integer literal, in base ten or
//! in base sixteen.

use vstd::prelude::*;
use crate::text::{chars_of, digit_in};

verus! {

/// The digit value of `c` in `radix`, and zero for a character that is no digit.
pub open spec fn digit_or_zero(c: char, radix: int) -> int {
    match digit_in(c, radix) {
        Some(d) => d,
        None => 0,
    }
}

/// Every character of `s` is a digit in `radix`.
pub open spec fn all_digits(s: Seq<char>, radix: int) -> bool {
    forall|i: int| 0 <= i < s.len() ==> (#[trigger] digit_in(s[i], radix)) is Some
}

/// The number that the digits of `s` write in `radix`, most significant first.
pub open spec fn magnitude(s: Seq<char>, radix: int) -> int
    decreases s.len(),
{
    if s.len() == 0 {
        0
    } else {
        magnitude(s.drop_last(), radix) * radix + digit_or_zero(s.last(), radix)
    }
}

/// `s` opens with a sign character.
pub open spec fn has_sign(s: Seq<char>) -> bool {
    s.len() > 0 && (s[0] == '-' || s[0] == '+')
}

/// The digits of the literal `s`: all of it but a leading sign.
pub open spec fn literal_digits(s: Seq<char>) -> Seq<char> {
    if has_sign(s) {
        s.subrange(1, s.len() as int)
    } else {
        s
    }
}

/// The integer that `s` writes, before any bound of a machine type is applied.
pub open spec fn signed_magnitude(s: Seq<char>, radix: int) -> int {
    if has_sign(s) && s[0] == '-' {
        -magnitude(literal_digits(s), radix)
    } else {
        magnitude(literal_digits(s), radix)
    }
}

/// What `s` means as a signed 64-bit literal in `radix`: an optional sign
/// (`-` or `+`), then one or more digits and nothing else, the whole within
/// the range of `i64`. Anything else, surrounding white space included, is no
/// literal.
pub open spec fn literal_value(s: Seq<char>, radix: int) -> Option<int> {
    let v = signed_magnitude(s, radix);
    if literal_digits(s).len() > 0 && all_digits(literal_digits(s), radix) && i64::MIN <= v
        <= i64::MAX {
        Some(v)
    } else {
        None
    }
}

/// A machine integer as a mathematical one, through `Option`.
pub open spec fn widen(r: Option<i64>) -> Option<int> {
    match r {
        Some(v) => Some(v as int),
        None => None,
    }
}

/// A run of digits never writes a negative number.
pub proof fn lemma_magnitude_nonnegative(s: Seq<char>, radix: int)
    requires
        radix == 10 || radix == 16,
    ensures
        magnitude(s, radix) >= 0,
    decreases s.len(),
{
    if s.len() > 0 {
        lemma_magnitude_nonnegative(s.drop_last(), radix);
        assert(magnitude(s.drop_last(), radix) * radix >= 0) by (nonlinear_arith)
            requires
                magnitude(s.drop_last(), radix) >= 0,
                radix > 0,
        ;
    }
}

/// Further digits never make the number smaller.
pub proof fn lemma_magnitude_grows(s: Seq<char>, k: int, radix: int)
    requires
        radix == 10 || radix == 16,
        0 <= k <= s.len(),
    ensures
        magnitude(s.take(k), radix) <= magnitude(s, radix),
    decreases s.len() - k,
{
    if k == s.len() {
        assert(s.take(k) =~= s);
    } else {
        lemma_magnitude_grows(s, k + 1, radix);
        let longer = s.take(k + 1);
        assert(longer.drop_last() =~= s.take(k));
        lemma_magnitude_nonnegative(s.take(k), radix);
        assert(magnitude(s.take(k), radix) * radix >= magnitude(s.take(k), radix))
            by (nonlinear_arith)
            requires
                magnitude(s.take(k), radix) >= 0,
                radix >= 1,
        ;
    }
}

/// How many numbers `n` digits can write in `radix`: `radix` to the power `n`.
pub open spec fn span(radix: int, n: nat) -> int
    decreases n,
{
    if n == 0 {
        1
    } else {
        radix * span(radix, (n - 1) as nat)
    }
}

/// A run of digits writes a number below the span of its length.
pub proof fn lemma_magnitude_bound(s: Seq<char>, radix: int)
    requires
        radix == 10 || radix == 16,
    ensures
        0 <= magnitude(s, radix) < span(radix, s.len()),
    decreases s.len(),
{
    if s.len() > 0 {
        lemma_magnitude_bound(s.drop_last(), radix);
        let m = magnitude(s.drop_last(), radix);
        let w = span(radix, s.drop_last().len());
        assert(m * radix + radix <= radix * w) by (nonlinear_arith)
            requires
                0 <= m < w,
                radix > 0,
        ;
        assert(m * radix >= 0) by (nonlinear_arith)
            requires
                0 <= m,
                radix > 0,
        ;
    }
}

/// Digits without a sign, few enough to stay within `i64`, are a literal, and
/// its value is the number that they write.
pub proof fn lemma_plain_digits_are_literal(s: Seq<char>, radix: int)
    requires
        radix == 10 || radix == 16,
        s.len() > 0,
        all_digits(s, radix),
        span(radix, s.len()) <= 0x8000_0000_0000_0000,
    ensures
        literal_value(s, radix) == Some(magnitude(s, radix)),
{
    assert(digit_in(s[0], radix) is Some);
    lemma_magnitude_bound(s, radix);
}

/// The value of `c` as a digit in `radix`.
fn digit_of(c: char, radix: u32) -> (r: Option<u32>)
    requires
        radix == 10 || radix == 16,
    ensures
        match r {
            Some(d) => digit_in(c, radix as int) == Some(d as int) && d < radix,
            None => digit_in(c, radix as int) is None,
        },
{
    if c >= '0' && c <= '9' {
        Some(c as u32 - '0' as u32)
    } else if radix == 16 && c >= 'a' && c <= 'f' {
        Some(c as u32 - 'a' as u32 + 10)
    } else if radix == 16 && c >= 'A' && c <= 'F' {
        Some(c as u32 - 'A' as u32 + 10)
    } else {
        None
    }
}

/// Reads `chars` as a signed 64-bit literal in `radix`.
pub(crate) fn read_literal(chars: &Vec<char>, radix: u32) -> (r: Option<i64>)
    requires
        radix == 10 || radix == 16,
    ensures
        widen(r) == literal_value(chars@, radix as int),
{
    let n: usize = chars.len();
    let signed: bool = n > 0 && (chars[0] == '-' || chars[0] == '+');
    let negative: bool = signed && chars[0] == '-';
    let start: usize = if signed { 1 } else { 0 };
    if start == n {
        return None;
    }
    let ghost body = literal_digits(chars@);
    let ghost base = radix as int;
    let mut mag: u64 = 0;
    let mut i: usize = start;
    while i < n
        invariant
            radix == 10 || radix == 16,
            base == radix as int,
            n == chars.len(),
            start <= i <= n,
            body == literal_digits(chars@),
            body.len() == n - start,
            forall|j: int| 0 <= j < body.len() ==> body[j] == chars@[j + start],
            all_digits(body.take(i - start), base),
            mag == magnitude(body.take(i - start), base),
            mag <= 0x8000_0000_0000_0000u64,
        decreases n - i,
    {
        let ghost seen = body.take(i - start);
        let ghost more = body.take(i - start + 1);
        proof {
            assert(more.drop_last() =~= seen);
            assert(more.last() == chars@[i as int]);
        }
        match digit_of(chars[i], radix) {
            None => {
                assert(digit_in(body[i - start], base) is None);
                return None;
            },
            Some(d) => {
                let next: u128 = mag as u128 * radix as u128 + d as u128;
                assert(next == magnitude(more, base)) by {
                    assert(mag as u128 * radix as u128 == mag as int * base) by (nonlinear_arith)
                        requires
                            mag <= 0x8000_0000_0000_0000u64,
                            radix <= 16,
                            base == radix as int,
                    ;
                }
                if next > 0x8000_0000_0000_0000u128 {
                    proof {
                        lemma_magnitude_grows(body, i - start + 1, base);
                    }
                    return None;
                }
                mag = next as u64;
                proof {
                    assert forall|j: int| 0 <= j < more.len() implies (#[trigger] digit_in(
                        more[j],
                        base,
                    )) is Some by {
                        if j < seen.len() {
                            assert(more[j] == seen[j]);
                        }
                    }
                }
            },
        }
        i = i + 1;
    }
    proof {
        assert(body.take(n - start) =~= body);
    }
    if negative {
        if mag == 0x8000_0000_0000_0000u64 {
            Some(i64::MIN)
        } else {
            Some(-(mag as i64))
        }
    } else if mag == 0x8000_0000_0000_0000u64 {
        None
    } else {
        Some(mag as i64)
    }
}

/// Reads `s` as a decimal integer: an optional sign and decimal digits, the
/// whole within the range of `i64`.
pub fn as_decimal(s: &str) -> (r: Option<i64>)
    ensures
        widen(r) == literal_value(s@, 10),
{
    let chars = chars_of(s);
    read_literal(&chars, 10)
}

/// Reads `s` as a hexadecimal integer without a prefix: an optional sign and
/// hexadecimal digits of either case, the whole within the range of `i64`.
pub fn as_hex(s: &str) -> (r: Option<i64>)
    ensures
        widen(r) == literal_value(s@, 16),
{
    let chars = chars_of(s);
    read_literal(&chars, 16)
}

} // verus!
