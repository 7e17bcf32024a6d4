//! The time that a UUID of version 1, 6 or 7 carries.
//!
//! A UUID is looked for anywhere in the text, as thirty-two hexadecimal
//! digits in groups of 8, 4, 4, 4 and 12, where a single `-` may or may not
//! stand between two groups. The first digit of the third group is the
//! version and must be a decimal digit.

use vstd::prelude::*;
use crate::bank::{converted, Convention};
use crate::calendar::Timestamp;
use crate::scalar::{
    all_digits, lemma_plain_digits_are_literal, literal_value, magnitude, read_literal, span,
};
use crate::text::{chars_of, decimal_digit, hex_digit};
use crate::ulid::time_of_millis;

verus! {

/// The versions of UUID that carry a time.
#[derive(Clone, Copy, Debug, PartialEq, Eq, Structural)]
pub enum UuidVersion {
    /// Time in intervals of 100 nanoseconds since 1582-10-15, low bits first.
    V1,
    /// The same count as in version 1, high bits first.
    V6,
    /// Milliseconds since 1970-01-01 in the leading 48 bits.
    V7,
}

/// The time field of a UUID: its version and the integer that its digits,
/// put in order of weight, write in base sixteen.
#[derive(Clone, Copy, Debug, PartialEq, Eq, Structural)]
pub struct UuidField {
    pub version: UuidVersion,
    pub ticks: i64,
}

/// A UUID that carries a time, with the date-time that it carries.
#[derive(Clone, Copy, Debug, PartialEq, Eq, Structural)]
pub enum Uuid {
    V1(Timestamp),
    V6(Timestamp),
    V7(Timestamp),
}

/// The place after the `-` at `at`, or `at` itself where no `-` stands there.
pub open spec fn after_dash(s: Seq<char>, at: int) -> int {
    if 0 <= at < s.len() && s[at] == '-' {
        at + 1
    } else {
        at
    }
}

/// `n` hexadecimal digits stand in `s` from `at` on.
pub open spec fn hex_run(s: Seq<char>, at: int, n: int) -> bool {
    &&& 0 <= at
    &&& at + n <= s.len()
    &&& forall|i: int| at <= i < at + n ==> (#[trigger] hex_digit(s[i])) is Some
}

/// Where the second group starts in a UUID that starts at `start`.
pub open spec fn mid_place(s: Seq<char>, start: int) -> int {
    after_dash(s, start + 8)
}

/// Where the version digit stands in a UUID that starts at `start`.
pub open spec fn version_place(s: Seq<char>, start: int) -> int {
    after_dash(s, mid_place(s, start) + 4)
}

/// Where the fourth group starts in a UUID that starts at `start`.
pub open spec fn clock_place(s: Seq<char>, start: int) -> int {
    after_dash(s, version_place(s, start) + 4)
}

/// Where the last group starts in a UUID that starts at `start`.
pub open spec fn node_place(s: Seq<char>, start: int) -> int {
    after_dash(s, clock_place(s, start) + 4)
}

/// A UUID stands in `s` at `start`.
pub open spec fn uuid_at(s: Seq<char>, start: int) -> bool {
    &&& hex_run(s, start, 8)
    &&& hex_run(s, mid_place(s, start), 4)
    &&& version_place(s, start) < s.len()
    &&& decimal_digit(s[version_place(s, start)]) is Some
    &&& hex_run(s, version_place(s, start) + 1, 3)
    &&& hex_run(s, clock_place(s, start), 4)
    &&& hex_run(s, node_place(s, start), 12)
}

/// The leftmost UUID in `s` stands at `start`.
pub open spec fn is_first_uuid(s: Seq<char>, start: int) -> bool {
    &&& 0 <= start
    &&& uuid_at(s, start)
    &&& forall|j: int| 0 <= j < start ==> !uuid_at(s, j)
}

/// Where the leftmost UUID in `s` starts, if there is one.
pub open spec fn first_uuid(s: Seq<char>) -> Option<int> {
    if exists|k: int| is_first_uuid(s, k) {
        Some(choose|k: int| is_first_uuid(s, k))
    } else {
        None
    }
}

/// The first group of the UUID at `start`: the low 32 bits of a version 1
/// time.
pub open spec fn time_low(s: Seq<char>, start: int) -> Seq<char> {
    s.subrange(start, start + 8)
}

/// The second group of the UUID at `start`.
pub open spec fn time_mid(s: Seq<char>, start: int) -> Seq<char> {
    s.subrange(mid_place(s, start), mid_place(s, start) + 4)
}

/// The three digits that follow the version digit of the UUID at `start`.
pub open spec fn time_hi(s: Seq<char>, start: int) -> Seq<char> {
    s.subrange(version_place(s, start) + 1, version_place(s, start) + 4)
}

/// The version of the UUID at `start`, where it is one that carries a time.
pub open spec fn version_of(s: Seq<char>, start: int) -> Option<UuidVersion> {
    let digit = s[version_place(s, start)];
    if digit == '1' {
        Some(UuidVersion::V1)
    } else if digit == '6' {
        Some(UuidVersion::V6)
    } else if digit == '7' {
        Some(UuidVersion::V7)
    } else {
        None
    }
}

/// The digits of the time of the UUID at `start`, most significant first.
/// Version 1 stores the low bits first, so its groups are turned round;
/// version 6 stores them in order; version 7 keeps its time in the first two
/// groups.
pub open spec fn time_digits(s: Seq<char>, start: int, version: UuidVersion) -> Seq<char> {
    match version {
        UuidVersion::V1 => time_hi(s, start) + time_mid(s, start) + time_low(s, start),
        UuidVersion::V6 => time_low(s, start) + time_mid(s, start) + time_hi(s, start),
        UuidVersion::V7 => time_low(s, start) + time_mid(s, start),
    }
}

/// The time field of the leftmost UUID in `s`. There is none where `s` holds
/// no UUID, or where the version of the leftmost one is not 1, 6 or 7.
pub open spec fn uuid_field(s: Seq<char>) -> Option<UuidField> {
    match first_uuid(s) {
        Some(start) => match version_of(s, start) {
            Some(version) => Some(
                UuidField { version, ticks: magnitude(time_digits(s, start, version), 16) as i64 },
            ),
            None => None,
        },
        None => None,
    }
}

/// The convention under which the time field of a version is read.
pub open spec fn convention_of(version: UuidVersion) -> Convention {
    match version {
        UuidVersion::V1 => Convention::UuidV1Clock,
        UuidVersion::V6 => Convention::UuidV1Clock,
        UuidVersion::V7 => Convention::Java,
    }
}

/// The UUID that a time field and the date-time given to its ticks make.
pub open spec fn dated(field: UuidField, time: Option<Timestamp>) -> Option<Uuid> {
    match time {
        Some(t) => Some(
            match field.version {
                UuidVersion::V1 => Uuid::V1(t),
                UuidVersion::V6 => Uuid::V6(t),
                UuidVersion::V7 => Uuid::V7(t),
            },
        ),
        None => None,
    }
}

/// The dated UUID that `s` holds: the time field of its leftmost UUID, read
/// under the convention of its version. There is none where there is no
/// field, or where the convention gives the ticks no date-time.
pub open spec fn uuid_time(s: Seq<char>) -> Option<Uuid> {
    match uuid_field(s) {
        Some(field) => dated(field, converted(convention_of(field.version), field.ticks)),
        None => None,
    }
}

/// The date-time of a time field. In versions 1 and 6 its ticks are
/// intervals of 100 nanoseconds since 1582-10-15, which lies 12 219 292 800
/// seconds before 1970-01-01; in version 7 they are milliseconds since
/// 1970-01-01.
pub open spec fn field_time(field: UuidField) -> Timestamp {
    match field.version {
        UuidVersion::V7 => time_of_millis(field.ticks as int),
        _ => Timestamp {
            secs: (field.ticks / 10_000_000 - 12_219_292_800) as i64,
            nanos: ((field.ticks % 10_000_000) * 100) as u32,
        },
    }
}

impl Uuid {
    /// The version of this UUID.
    pub open spec fn spec_version(&self) -> UuidVersion {
        match *self {
            Uuid::V1(_) => UuidVersion::V1,
            Uuid::V6(_) => UuidVersion::V6,
            Uuid::V7(_) => UuidVersion::V7,
        }
    }

    /// The date-time that this UUID carries.
    pub open spec fn spec_time(&self) -> Timestamp {
        match *self {
            Uuid::V1(t) => t,
            Uuid::V6(t) => t,
            Uuid::V7(t) => t,
        }
    }

    /// The version of this UUID.
    #[verifier::when_used_as_spec(spec_version)]
    pub fn version(&self) -> (v: UuidVersion)
        ensures
            v == self.spec_version(),
    {
        match self {
            Uuid::V1(_) => UuidVersion::V1,
            Uuid::V6(_) => UuidVersion::V6,
            Uuid::V7(_) => UuidVersion::V7,
        }
    }

    /// The date-time that this UUID carries.
    #[verifier::when_used_as_spec(spec_time)]
    pub fn time(&self) -> (t: Timestamp)
        ensures
            t == self.spec_time(),
    {
        match self {
            Uuid::V1(t) => *t,
            Uuid::V6(t) => *t,
            Uuid::V7(t) => *t,
        }
    }
}

/// There is at most one leftmost UUID.
pub proof fn lemma_first_uuid_is(s: Seq<char>, start: int)
    requires
        is_first_uuid(s, start),
    ensures
        first_uuid(s) == Some(start),
{
    let k = choose|k: int| is_first_uuid(s, k);
    if k < start {
        assert(!uuid_at(s, k));
    } else if start < k {
        assert(!uuid_at(s, start));
    }
}

/// The digits of a time field are hexadecimal digits, twelve of them in
/// version 7 and fifteen in the others, so that the number they write fits 48
/// bits and 60 bits.
pub proof fn lemma_time_digits_fit(s: Seq<char>, start: int, version: UuidVersion)
    requires
        0 <= start,
        uuid_at(s, start),
    ensures
        all_digits(time_digits(s, start, version), 16),
        time_digits(s, start, version).len() == if version == UuidVersion::V7 {
            12int
        } else {
            15int
        },
        0 <= magnitude(time_digits(s, start, version), 16) < if version == UuidVersion::V7 {
            0x1_0000_0000_0000int
        } else {
            0x1000_0000_0000_0000int
        },
        literal_value(time_digits(s, start, version), 16) == Some(
            magnitude(time_digits(s, start, version), 16),
        ),
{
    let d = time_digits(s, start, version);
    let low = time_low(s, start);
    let mid = time_mid(s, start);
    let hi = time_hi(s, start);
    assert(mid_place(s, start) >= start + 8);
    assert(version_place(s, start) >= start + 12);
    assert forall|i: int| 0 <= i < low.len() implies (#[trigger] hex_digit(low[i])) is Some by {
        assert(low[i] == s[start + i]);
    }
    assert forall|i: int| 0 <= i < mid.len() implies (#[trigger] hex_digit(mid[i])) is Some by {
        assert(mid[i] == s[mid_place(s, start) + i]);
    }
    assert forall|i: int| 0 <= i < hi.len() implies (#[trigger] hex_digit(hi[i])) is Some by {
        assert(hi[i] == s[version_place(s, start) + 1 + i]);
    }
    assert(all_digits(d, 16));
    assert(span(16, 15) == 0x1000_0000_0000_0000) by {
        reveal_with_fuel(span, 16);
    }
    assert(span(16, 12) == 0x1_0000_0000_0000) by {
        reveal_with_fuel(span, 13);
    }
    lemma_plain_digits_are_literal(d, 16);
    crate::scalar::lemma_magnitude_bound(d, 16);
}

/// Every time field has its date-time: the ticks of a UUID of version 1, 6
/// or 7 are few enough for the calendar, so that a text with a time field
/// always holds a dated UUID, of the version and with the date-time of the
/// field.
pub proof fn lemma_uuid_field_is_dated(s: Seq<char>)
    requires
        uuid_field(s) is Some,
    ensures
        uuid_time(s) == dated(uuid_field(s)->0, Some(field_time(uuid_field(s)->0))),
        uuid_time(s) is Some,
{
    let start = choose|k: int| is_first_uuid(s, k);
    assert(is_first_uuid(s, start));
    let version = version_of(s, start)->0;
    lemma_time_digits_fit(s, start, version);
}

/// Thirty-two hexadecimal digits and nothing else, the thirteenth of them
/// `1`, are a UUID of version 1. Its ticks are the number written by the
/// three digits after the version, then the second group of four, then the
/// first group of eight, and it is dated by them.
pub proof fn lemma_plain_version_1(s: Seq<char>)
    requires
        s.len() == 32,
        forall|i: int| 0 <= i < 32 ==> (#[trigger] hex_digit(s[i])) is Some,
        s[12] == '1',
    ensures
        uuid_field(s) matches Some(field) && field.version == UuidVersion::V1 && field.ticks
            == magnitude(s.subrange(13, 16) + s.subrange(8, 12) + s.subrange(0, 8), 16),
        uuid_time(s) == Some(Uuid::V1(field_time(uuid_field(s)->0))),
{
    assert(hex_digit(s[8]) is Some);
    assert(hex_digit(s[12]) is Some);
    assert(hex_digit(s[16]) is Some);
    assert(hex_digit(s[20]) is Some);
    assert(mid_place(s, 0) == 8);
    assert(version_place(s, 0) == 12);
    assert(clock_place(s, 0) == 16);
    assert(node_place(s, 0) == 20);
    assert(uuid_at(s, 0));
    lemma_first_uuid_is(s, 0);
    lemma_time_digits_fit(s, 0, UuidVersion::V1);
    lemma_uuid_field_is_dated(s);
}

/// A UUID whose version is not 1, 6 or 7 carries no time: where the leftmost
/// UUID in `s` is such a one, `s` has no time field and no dated UUID, whatever
/// follows it.
pub proof fn lemma_other_versions_carry_no_time(s: Seq<char>, start: int)
    requires
        is_first_uuid(s, start),
        s[version_place(s, start)] != '1',
        s[version_place(s, start)] != '6',
        s[version_place(s, start)] != '7',
    ensures
        uuid_field(s) is None,
        uuid_time(s) is None,
{
    lemma_first_uuid_is(s, start);
}

/// Whether `c` is a hexadecimal digit.
fn is_hex(c: char) -> (b: bool)
    ensures
        b == hex_digit(c) is Some,
{
    (c >= '0' && c <= '9') || (c >= 'a' && c <= 'f') || (c >= 'A' && c <= 'F')
}

/// The place after an optional `-` at `at`.
fn skip_dash(chars: &Vec<char>, at: usize) -> (r: usize)
    requires
        at <= chars.len(),
    ensures
        r == after_dash(chars@, at as int),
        at <= r <= chars.len(),
{
    if at < chars.len() && chars[at] == '-' {
        at + 1
    } else {
        at
    }
}

/// Whether `n` hexadecimal digits stand in `chars` from `at` on.
fn hex_run_at(chars: &Vec<char>, at: usize, n: usize) -> (b: bool)
    requires
        at <= chars.len(),
        n <= 12,
    ensures
        b == hex_run(chars@, at as int, n as int),
{
    if chars.len() - at < n {
        return false;
    }
    let mut i: usize = 0;
    while i < n
        invariant
            i <= n,
            at + n <= chars.len(),
            forall|j: int| at <= j < at + i ==> (#[trigger] hex_digit(chars@[j])) is Some,
        decreases n - i,
    {
        if !is_hex(chars[at + i]) {
            assert(hex_digit(chars@[at + i]) is None);
            return false;
        }
        i = i + 1;
    }
    true
}

/// Whether a UUID stands in `chars` at `start`.
fn uuid_starts_at(chars: &Vec<char>, start: usize) -> (b: bool)
    requires
        start <= chars.len(),
    ensures
        b == uuid_at(chars@, start as int),
{
    if !hex_run_at(chars, start, 8) {
        return false;
    }
    let mid = skip_dash(chars, start + 8);
    if !hex_run_at(chars, mid, 4) {
        return false;
    }
    let version = skip_dash(chars, mid + 4);
    if version >= chars.len() {
        return false;
    }
    let digit = chars[version];
    if !(digit >= '0' && digit <= '9') {
        return false;
    }
    if !hex_run_at(chars, version + 1, 3) {
        return false;
    }
    let clock = skip_dash(chars, version + 4);
    if !hex_run_at(chars, clock, 4) {
        return false;
    }
    let node = skip_dash(chars, clock + 4);
    hex_run_at(chars, node, 12)
}

/// Where the leftmost UUID in `chars` starts, if there is one.
pub fn find_uuid(chars: &Vec<char>) -> (r: Option<usize>)
    ensures
        match r {
            Some(start) => first_uuid(chars@) == Some(start as int) && uuid_at(
                chars@,
                start as int,
            ),
            None => first_uuid(chars@) is None,
        },
{
    let mut start: usize = 0;
    while start < chars.len()
        invariant
            start <= chars.len(),
            forall|j: int| 0 <= j < start ==> !uuid_at(chars@, j),
        decreases chars.len() - start,
    {
        if uuid_starts_at(chars, start) {
            proof {
                lemma_first_uuid_is(chars@, start as int);
            }
            return Some(start);
        }
        start = start + 1;
    }
    proof {
        assert forall|k: int| !is_first_uuid(chars@, k) by {
            if k >= chars.len() {
                assert(!hex_run(chars@, k, 8));
            }
        }
    }
    None
}

/// Adds the `n` characters of `chars` from `from` on to the end of `out`.
fn append_run(out: &mut Vec<char>, chars: &Vec<char>, from: usize, n: usize)
    requires
        from + n <= chars.len(),
    ensures
        final(out)@ == old(out)@ + chars@.subrange(from as int, from + n),
{
    let mut i: usize = 0;
    while i < n
        invariant
            i <= n,
            from + n <= chars.len(),
            out@ == old(out)@ + chars@.subrange(from as int, from + i),
        decreases n - i,
    {
        out.push(chars[from + i]);
        proof {
            assert(chars@.subrange(from as int, from + i + 1) =~= chars@.subrange(
                from as int,
                from + i,
            ).push(chars@[from + i]));
        }
        i = i + 1;
    }
}

/// The time field of the leftmost UUID in `chars`.
pub fn read_uuid_field(chars: &Vec<char>) -> (r: Option<UuidField>)
    ensures
        r == uuid_field(chars@),
{
    let start = match find_uuid(chars) {
        Some(start) => start,
        None => {
            return None;
        },
    };
    let ghost s = chars@;
    assert(hex_run(s, start as int, 8));
    assert(start + 8 <= chars.len());
    assert(hex_run(s, mid_place(s, start as int), 4));
    assert(hex_run(s, version_place(s, start as int) + 1, 3));
    let mid = skip_dash(chars, start + 8);
    let place = skip_dash(chars, mid + 4);
    let digit = chars[place];
    let version = if digit == '1' {
        UuidVersion::V1
    } else if digit == '6' {
        UuidVersion::V6
    } else if digit == '7' {
        UuidVersion::V7
    } else {
        return None;
    };
    let mut digits: Vec<char> = Vec::new();
    match version {
        UuidVersion::V1 => {
            append_run(&mut digits, chars, place + 1, 3);
            append_run(&mut digits, chars, mid, 4);
            append_run(&mut digits, chars, start, 8);
        },
        UuidVersion::V6 => {
            append_run(&mut digits, chars, start, 8);
            append_run(&mut digits, chars, mid, 4);
            append_run(&mut digits, chars, place + 1, 3);
        },
        UuidVersion::V7 => {
            append_run(&mut digits, chars, start, 8);
            append_run(&mut digits, chars, mid, 4);
        },
    }
    proof {
        assert(digits@ =~= time_digits(s, start as int, version));
        lemma_time_digits_fit(s, start as int, version);
    }
    match read_literal(&digits, 16) {
        Some(ticks) => Some(UuidField { version, ticks }),
        None => None,
    }
}

/// Gives the time field of a UUID the date-time that the convention of its
/// version found for its ticks.
pub fn date_uuid(field: UuidField, time: Option<Timestamp>) -> (r: Option<Uuid>)
    ensures
        r == dated(field, time),
{
    match time {
        Some(t) => Some(
            match field.version {
                UuidVersion::V1 => Uuid::V1(t),
                UuidVersion::V6 => Uuid::V6(t),
                UuidVersion::V7 => Uuid::V7(t),
            },
        ),
        None => None,
    }
}

impl UuidVersion {
    /// The convention under which the time field of this version is read.
    pub fn convention(&self) -> (c: Convention)
        ensures
            c == convention_of(*self),
    {
        match self {
            UuidVersion::V1 => Convention::UuidV1Clock,
            UuidVersion::V6 => Convention::UuidV1Clock,
            UuidVersion::V7 => Convention::Java,
        }
    }
}

/// Looks for a UUID in `text` and, where the leftmost one is of version 1, 6
/// or 7, reads the date-time that it carries: the time field under the clock
/// of version 1 for versions 1 and 6, and as milliseconds since 1970-01-01
/// for version 7. Every such UUID has its date-time.
pub fn get_uuid(text: &str) -> (r: Option<Uuid>)
    ensures
        r == uuid_time(text@),
        r == match uuid_field(text@) {
            Some(field) => dated(field, Some(field_time(field))),
            None => None,
        },
{
    let chars = chars_of(text);
    match read_uuid_field(&chars) {
        Some(field) => {
            proof {
                lemma_uuid_field_is_dated(text@);
            }
            date_uuid(field, field.version.convention().convert(field.ticks))
        },
        None => None,
    }
}

} // verus!
