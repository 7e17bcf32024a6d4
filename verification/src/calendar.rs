//! Points in time and calendar days as plain numbers, and the window of days
//! that a caller is interested in.

use vstd::prelude::*;

verus! {

/// Seconds in a calendar day.
pub const SECONDS_PER_DAY: i64 = 86_400;

/// A date-time without a zone: whole seconds since 1970-01-01T00:00:00, which
/// may be negative, and the nanoseconds into that second.
#[derive(Clone, Copy, Debug, PartialEq, Eq, Structural)]
pub struct Timestamp {
    pub secs: i64,
    pub nanos: u32,
}

/// A calendar day, counted from 1970-01-01 as day zero.
#[derive(Clone, Copy, Debug, PartialEq, Eq, Structural)]
pub struct Date {
    pub days: i64,
}

/// The day on which second `secs` falls: the quotient rounded down, so that
/// the last second of 1969 lies on day -1.
pub open spec fn day_of(secs: int) -> int {
    secs / 86_400
}

/// `day` lies within `[min, max]`, both ends included.
pub open spec fn within(day: int, min: Date, max: Date) -> bool {
    min.days <= day <= max.days
}

/// A time as a pair of plain numbers becomes a `Timestamp`.
pub open spec fn stamp(t: Option<(i64, u32)>) -> Option<Timestamp> {
    match t {
        Some((secs, nanos)) => Some(Timestamp { secs, nanos }),
        None => None,
    }
}

/// What is left of a conversion's result once the window is applied: the time
/// itself where its day lies in the window, nothing otherwise.
pub open spec fn kept(found: Option<Timestamp>, min: Date, max: Date) -> Option<Timestamp> {
    match found {
        Some(t) => if within(day_of(t.secs as int), min, max) {
            Some(t)
        } else {
            None
        },
        None => None,
    }
}

impl Timestamp {
    /// The calendar day of this time; the time of day plays no part.
    pub fn date(&self) -> (d: Date)
        ensures
            d.days == day_of(self.secs as int),
    {
        let whole: i64 = self.secs / SECONDS_PER_DAY;
        let rest: i64 = self.secs % SECONDS_PER_DAY;
        if rest < 0 {
            Date { days: whole - 1 }
        } else {
            Date { days: whole }
        }
    }
}

/// Whether `date` lies within `[min, max]`, both ends included.
pub fn in_range(date: Date, min: Date, max: Date) -> (b: bool)
    ensures
        b == within(date.days as int, min, max),
{
    min.days <= date.days && date.days <= max.days
}

/// Applies the window to the result of one conversion: a time whose day lies
/// outside `[min, max]` is dropped as if the conversion had given none.
pub fn keep_in_range(found: Option<Timestamp>, min: Date, max: Date) -> (r: Option<Timestamp>)
    ensures
        r == kept(found, min, max),
{
    match found {
        Some(t) => {
            if in_range(t.date(), min, max) {
                Some(t)
            } else {
                None
            }
        },
        None => None,
    }
}

/// A window that lies inside another keeps no time that the other drops.
pub proof fn lemma_kept_in_wider_window(
    found: Option<Timestamp>,
    a: Date,
    b: Date,
    c: Date,
    d: Date,
)
    requires
        forall|day: int| within(day, a, b) ==> within(day, c, d),
    ensures
        kept(found, a, b) is Some ==> kept(found, c, d) == kept(found, a, b),
{
}

/// The first second that a date-time can hold: midnight before 1 January of
/// the year -262143.
pub const FIRST_SECOND: i64 = -8_334_601_228_800;

/// The last second that a date-time can hold: the one before midnight after
/// 31 December of the year 262142.
pub const LAST_SECOND: i64 = 8_210_266_876_799;

/// Nanoseconds in a second.
pub const NANOS_PER_SECOND: u32 = 1_000_000_000;

/// Second `secs` lies within the years that a date-time can hold.
pub open spec fn representable(secs: int) -> bool {
    FIRST_SECOND <= secs <= LAST_SECOND
}

/// The date-time of `ticks` under a convention that counts `per_second`
/// ticks to the second from an origin that lies `shift` seconds after
/// 1970-01-01 (before it, where `shift` is negative), as seconds since
/// 1970-01-01 and nanoseconds into the second. There is none where the second
/// lies outside the years that a date-time can hold, nor for a negative count
/// that is not a whole number of seconds.
pub open spec fn scaled_time(ticks: i64, per_second: int, shift: int) -> Option<(i64, u32)> {
    let count = ticks as int;
    if count < 0 && count % per_second != 0 {
        None
    } else if representable(count / per_second + shift) {
        Some(
            (
                (count / per_second + shift) as i64,
                ((count % per_second) * (1_000_000_000int / per_second)) as u32,
            ),
        )
    } else {
        None
    }
}

/// Calls `chrono::DateTime::from_timestamp`, which makes a date-time from
/// seconds since 1970-01-01 and nanoseconds into the second, and gives none
/// where the seconds lie outside the years -262143 to 262142. Trusted: for
/// nanoseconds below a full second it succeeds exactly on the seconds from
/// `FIRST_SECOND` to `LAST_SECOND`, and the date-time that it makes reads back
/// as the same seconds and nanoseconds.
#[verifier::external_body]
pub(crate) fn utc_from_timestamp(secs: i64, nanos: u32) -> (r: Option<(i64, u32)>)
    requires
        nanos < NANOS_PER_SECOND,
    ensures
        r == if representable(secs as int) {
            Some((secs, nanos))
        } else {
            None
        },
{
    match chrono::DateTime::from_timestamp(secs, nanos) {
        Some(t) => Some((t.timestamp(), t.timestamp_subsec_nanos())),
        None => None,
    }
}

} // verus!
