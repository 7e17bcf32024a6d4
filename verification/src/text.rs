//! Characters of a candidate string and the digit classes the readers share.

use vstd::prelude::*;

verus! {

/// The value of `c` as a decimal digit, if it is one.
pub open spec fn decimal_digit(c: char) -> Option<int> {
    if '0' <= c <= '9' {
        Some(c as int - '0' as int)
    } else {
        None
    }
}

/// The value of `c` as a hexadecimal digit of either case, if it is one.
pub open spec fn hex_digit(c: char) -> Option<int> {
    if '0' <= c <= '9' {
        Some(c as int - '0' as int)
    } else if 'a' <= c <= 'f' {
        Some(c as int - 'a' as int + 10)
    } else if 'A' <= c <= 'F' {
        Some(c as int - 'A' as int + 10)
    } else {
        None
    }
}

/// The digit value of `c` in the given radix; only 10 and 16 have digits here.
pub open spec fn digit_in(c: char, radix: int) -> Option<int> {
    if radix == 10 {
        decimal_digit(c)
    } else if radix == 16 {
        hex_digit(c)
    } else {
        None
    }
}

/// The characters of `s`, in order.
pub fn chars_of(s: &str) -> (out: Vec<char>)
    ensures
        out@ == s@,
{
    let mut out: Vec<char> = Vec::new();
    let chars = s.chars();
    for c in it: chars
        invariant
            out@ == it.seq().take(it.index() as int),
            it.seq() == s@,
    {
        out.push(c);
    }
    out
}

} // verus!
