//! The time that a ULID carries: the first ten of its twenty-six Crockford
//! base-32 symbols count milliseconds since 1970-01-01. Letters count alike
//! in capitals and in small.

use vstd::prelude::*;
use vstd::string::*;
use crate::calendar::{representable, utc_from_timestamp, Timestamp};
use crate::text::chars_of;

verus! {

/// Symbols in a ULID.
pub const ULID_LENGTH: usize = 26;

/// Leading symbols of a ULID that hold its time.
pub const ULID_TIME_LENGTH: usize = 10;

/// The value of `c` as a capital symbol of the alphabet
/// `0123456789ABCDEFGHJKMNPQRSTVWXYZ`, if it is one.
pub open spec fn capital_value(c: char) -> Option<int> {
    if '0' <= c <= '9' {
        Some(c as int - '0' as int)
    } else if 'A' <= c <= 'H' {
        Some(c as int - 'A' as int + 10)
    } else if 'J' <= c <= 'K' {
        Some(c as int - 'J' as int + 18)
    } else if 'M' <= c <= 'N' {
        Some(c as int - 'M' as int + 20)
    } else if 'P' <= c <= 'T' {
        Some(c as int - 'P' as int + 22)
    } else if 'V' <= c <= 'Z' {
        Some(c as int - 'V' as int + 27)
    } else {
        None
    }
}

/// The value of `c` as a small letter of the alphabet, which is that of its
/// capital.
pub open spec fn small_value(c: char) -> Option<int> {
    if 'a' <= c <= 'h' {
        Some(c as int - 'a' as int + 10)
    } else if 'j' <= c <= 'k' {
        Some(c as int - 'j' as int + 18)
    } else if 'm' <= c <= 'n' {
        Some(c as int - 'm' as int + 20)
    } else if 'p' <= c <= 't' {
        Some(c as int - 'p' as int + 22)
    } else if 'v' <= c <= 'z' {
        Some(c as int - 'v' as int + 27)
    } else {
        None
    }
}

/// The value of `c` as a symbol, if it is one. The symbols are the digits
/// and the letters of either case, without `I`, `L`, `O` and `U`: a small
/// letter stands for its capital.
pub open spec fn symbol_value(c: char) -> Option<int> {
    if capital_value(c) is Some {
        capital_value(c)
    } else {
        small_value(c)
    }
}

/// The alphabet, each symbol at the place of its value.
pub open spec fn alphabet() -> Seq<char> {
    seq![
        '0', '1', '2', '3', '4', '5', '6', '7', '8', '9', 'A', 'B', 'C', 'D', 'E', 'F', 'G', 'H',
        'J', 'K', 'M', 'N', 'P', 'Q', 'R', 'S', 'T', 'V', 'W', 'X', 'Y', 'Z',
    ]
}

/// The value of `c` as a symbol, and zero for a character that is none.
pub open spec fn symbol_or_zero(c: char) -> int {
    match symbol_value(c) {
        Some(v) => v,
        None => 0,
    }
}

/// Every character of `s` is a symbol of the alphabet.
pub open spec fn all_symbols(s: Seq<char>) -> bool {
    forall|i: int| 0 <= i < s.len() ==> (#[trigger] symbol_value(s[i])) is Some
}

/// The number that the symbols of `s` write in base 32, most significant
/// first.
pub open spec fn base32_value(s: Seq<char>) -> int
    decreases s.len(),
{
    if s.len() == 0 {
        0
    } else {
        base32_value(s.drop_last()) * 32 + symbol_or_zero(s.last())
    }
}

/// How many numbers `n` symbols can write: 32 to the power `n`.
pub open spec fn capacity(n: nat) -> int
    decreases n,
{
    if n == 0 {
        1
    } else {
        32 * capacity((n - 1) as nat)
    }
}

/// The `n` symbols that write `v` in base 32, most significant first; the
/// leading symbols are `0` where `v` is small.
pub open spec fn symbols_for(v: int, n: nat) -> Seq<char>
    decreases n,
{
    if n == 0 {
        Seq::empty()
    } else {
        symbols_for(v / 32, (n - 1) as nat).push(alphabet()[v % 32])
    }
}

/// `s` has the shape of a ULID: exactly twenty-six symbols of the alphabet.
pub open spec fn is_ulid(s: Seq<char>) -> bool {
    s.len() == ULID_LENGTH && all_symbols(s)
}

/// The milliseconds since 1970-01-01 that the ULID `s` carries.
pub open spec fn ulid_millis(s: Seq<char>) -> int {
    base32_value(s.take(ULID_TIME_LENGTH as int))
}

/// The date-time at `millis` milliseconds since 1970-01-01.
pub open spec fn time_of_millis(millis: int) -> Timestamp {
    Timestamp { secs: (millis / 1000) as i64, nanos: ((millis % 1000) * 1_000_000) as u32 }
}

/// The date-time that `s` carries as a ULID, if it has the shape of one.
pub open spec fn ulid_time(s: Seq<char>) -> Option<Timestamp> {
    if is_ulid(s) {
        Some(time_of_millis(ulid_millis(s)))
    } else {
        None
    }
}

/// Each symbol of the alphabet has its place as its value.
pub proof fn lemma_alphabet_values(v: int)
    requires
        0 <= v < 32,
    ensures
        symbol_value(alphabet()[v]) == Some(v),
{
}

/// Symbols write a number below the capacity of their count, and never a
/// negative one.
pub proof fn lemma_base32_bound(s: Seq<char>)
    ensures
        0 <= base32_value(s) < capacity(s.len()),
    decreases s.len(),
{
    if s.len() > 0 {
        lemma_base32_bound(s.drop_last());
    }
}

/// Ten symbols write a number below 2 to the power 50.
pub proof fn lemma_capacity_of_time()
    ensures
        capacity(10) == 0x4_0000_0000_0000,
{
    reveal_with_fuel(capacity, 11);
}

/// Writing a number in `n` symbols and reading the symbols gives the number
/// back, as long as `n` symbols can hold it.
pub proof fn lemma_symbols_round_trip(v: int, n: nat)
    requires
        0 <= v < capacity(n),
    ensures
        symbols_for(v, n).len() == n,
        all_symbols(symbols_for(v, n)),
        base32_value(symbols_for(v, n)) == v,
    decreases n,
{
    if n > 0 {
        let head = symbols_for(v / 32, (n - 1) as nat);
        lemma_symbols_round_trip(v / 32, (n - 1) as nat);
        lemma_alphabet_values(v % 32);
        let all = symbols_for(v, n);
        assert(all.drop_last() =~= head);
        assert forall|i: int| 0 <= i < all.len() implies (#[trigger] symbol_value(all[i])) is Some by {
            if i < head.len() {
                assert(all[i] == head[i]);
            }
        }
    }
}

/// A time of up to 48 bits, written into the first ten symbols of a ULID,
/// is read back from it exactly, whatever the sixteen symbols that follow.
pub proof fn lemma_ulid_time_round_trip(millis: int, tail: Seq<char>)
    requires
        0 <= millis < 0x1_0000_0000_0000,
        tail.len() == 16,
        all_symbols(tail),
    ensures
        is_ulid(symbols_for(millis, 10) + tail),
        ulid_millis(symbols_for(millis, 10) + tail) == millis,
        ulid_time(symbols_for(millis, 10) + tail) == Some(time_of_millis(millis)),
{
    lemma_capacity_of_time();
    lemma_symbols_round_trip(millis, 10);
    let head = symbols_for(millis, 10);
    let whole = head + tail;
    assert(whole.take(10) =~= head);
    assert forall|i: int| 0 <= i < whole.len() implies (#[trigger] symbol_value(whole[i])) is Some by {
        if i < 10 {
            assert(whole[i] == head[i]);
        } else {
            assert(whole[i] == tail[i - 10]);
        }
    }
}

/// Symbols of the same values write the same number.
pub proof fn lemma_same_values_same_number(s: Seq<char>, t: Seq<char>)
    requires
        s.len() == t.len(),
        forall|i: int| 0 <= i < s.len() ==> symbol_value(#[trigger] s[i]) == symbol_value(t[i]),
    ensures
        base32_value(s) == base32_value(t),
    decreases s.len(),
{
    if s.len() > 0 {
        assert(symbol_value(s[s.len() - 1]) == symbol_value(t[t.len() - 1]));
        assert forall|i: int| 0 <= i < s.drop_last().len() implies symbol_value(
            #[trigger] s.drop_last()[i],
        ) == symbol_value(t.drop_last()[i]) by {
            assert(s.drop_last()[i] == s[i]);
            assert(t.drop_last()[i] == t[i]);
        }
        lemma_same_values_same_number(s.drop_last(), t.drop_last());
    }
}

/// The case of the letters plays no part: two texts that agree symbol by
/// symbol in value, as a ULID in capitals and the same in small letters do,
/// carry the same date-time or none.
pub proof fn lemma_case_is_ignored(s: Seq<char>, t: Seq<char>)
    requires
        s.len() == t.len(),
        forall|i: int| 0 <= i < s.len() ==> symbol_value(#[trigger] s[i]) == symbol_value(t[i]),
    ensures
        is_ulid(s) == is_ulid(t),
        ulid_time(s) == ulid_time(t),
{
    if is_ulid(s) {
        assert forall|i: int| 0 <= i < t.len() implies (#[trigger] symbol_value(t[i])) is Some by {
            assert(symbol_value(s[i]) is Some);
        }
    }
    if is_ulid(t) {
        assert forall|i: int| 0 <= i < s.len() implies (#[trigger] symbol_value(s[i])) is Some by {
            assert(symbol_value(s[i]) == symbol_value(t[i]));
        }
    }
    if s.len() >= 10 {
        let a = s.take(10);
        let b = t.take(10);
        assert forall|i: int| 0 <= i < a.len() implies symbol_value(#[trigger] a[i])
            == symbol_value(b[i]) by {
            assert(a[i] == s[i]);
            assert(b[i] == t[i]);
        }
        lemma_same_values_same_number(a, b);
    }
}

/// Calls `crockford::decode`, which reads a string of base-32 symbols, most
/// significant first, as a `u64`. Trusted: for one to twelve symbols, in
/// capitals or small letters, it succeeds with the number that they write.
/// (It also reads a few look-alikes of digits, and longer strings; nothing is
/// said of those here.)
#[verifier::external_body]
fn crockford_decode(symbols: &str) -> (r: Option<u64>)
    ensures
        all_symbols(symbols@) && 1 <= symbols@.len() <= 12 ==> r == Some(
            base32_value(symbols@) as u64,
        ),
{
    match crockford::decode(symbols) {
        Ok(value) => Some(value),
        Err(_) => None,
    }
}

/// Whether `c` is a symbol of the alphabet.
fn is_symbol(c: char) -> (b: bool)
    ensures
        b == symbol_value(c) is Some,
{
    let capital = (c >= 'A' && c <= 'H') || (c >= 'J' && c <= 'K') || (c >= 'M' && c <= 'N') || (c
        >= 'P' && c <= 'T') || (c >= 'V' && c <= 'Z');
    let small = (c >= 'a' && c <= 'h') || (c >= 'j' && c <= 'k') || (c >= 'm' && c <= 'n') || (c
        >= 'p' && c <= 't') || (c >= 'v' && c <= 'z');
    (c >= '0' && c <= '9') || capital || small
}

/// Splits milliseconds since 1970-01-01 into seconds and nanoseconds and
/// makes the date-time; none where the seconds lie beyond the years that a
/// date-time can hold.
pub fn millis_to_time(millis: u64) -> (r: Option<Timestamp>)
    ensures
        r == if representable(millis as int / 1000) {
            Some(time_of_millis(millis as int))
        } else {
            None
        },
{
    let secs: i64 = (millis / 1000) as i64;
    let nanos: u32 = (millis % 1000) as u32 * 1_000_000;
    match utc_from_timestamp(secs, nanos) {
        Some((secs, nanos)) => Some(Timestamp { secs, nanos }),
        None => None,
    }
}

/// Looks for a ULID in `text`: the whole of it must be twenty-six symbols of
/// the alphabet, in capitals or small letters. Where it is, returns the
/// date-time that the first ten symbols carry.
pub fn get_ulid(text: &str) -> (r: Option<Timestamp>)
    ensures
        r == ulid_time(text@),
{
    let chars = chars_of(text);
    if chars.len() != ULID_LENGTH {
        return None;
    }
    let mut i: usize = 0;
    while i < ULID_LENGTH
        invariant
            i <= ULID_LENGTH,
            chars@ == text@,
            chars.len() == ULID_LENGTH,
            all_symbols(chars@.take(i as int)),
        decreases ULID_LENGTH - i,
    {
        if !is_symbol(chars[i]) {
            assert(symbol_value(text@[i as int]) is None);
            return None;
        }
        proof {
            let seen = chars@.take(i as int);
            let more = chars@.take(i + 1);
            assert forall|j: int| 0 <= j < more.len() implies (#[trigger] symbol_value(more[j])) is Some by {
                if j < i {
                    assert(more[j] == seen[j]);
                }
            }
        }
        i = i + 1;
    }
    proof {
        assert(chars@.take(ULID_LENGTH as int) =~= text@);
        assert forall|j: int| 0 <= j < text@.len() implies '\0' <= (#[trigger] text@[j]) <= '\u{7f}' by {
            assert(symbol_value(text@[j]) is Some);
        }
    }
    let head = text.substring_ascii(0, ULID_TIME_LENGTH);
    proof {
        assert forall|j: int| 0 <= j < head@.len() implies (#[trigger] symbol_value(head@[j])) is Some by {
            assert(head@[j] == text@[j]);
        }
        lemma_base32_bound(head@);
        lemma_capacity_of_time();
    }
    match crockford_decode(head) {
        Some(millis) => millis_to_time(millis),
        None => None,
    }
}

} // verus!
