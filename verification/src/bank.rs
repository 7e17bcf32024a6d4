//! The catalogue of timestamp conventions, and the reading of one integer
//! under all of them.
//!
//! The conversions themselves are the work of the `epochs` crate, each called
//! through a small function of this module. Ten of them scale the count to
//! seconds and shift it to the origin of 1970, which `scaled_time` states;
//! the date-time that the Google Calendar conversion gives is only named.

use vstd::prelude::*;
use crate::calendar::{
    keep_in_range, kept, lemma_kept_in_wider_window, scaled_time, stamp, within, Date, Timestamp,
};

verus! {

/// A timestamp convention: a fixed origin and a fixed length of tick.
#[derive(Clone, Copy, Debug, PartialEq, Eq, Structural)]
pub enum Convention {
    /// Ticks are nanoseconds since 1970-01-01.
    Apfs,
    /// Ticks are microseconds since 1601-01-01.
    Chrome,
    /// Ticks are seconds since 2001-01-01.
    Cocoa,
    /// Ticks are seconds in months of 32 days, counted from the day before
    /// 1970-01-01.
    GoogleCalendar,
    /// Ticks are milliseconds since 1970-01-01.
    Java,
    /// Ticks are microseconds since 1970-01-01.
    Mozilla,
    /// Ticks are microseconds since the year 0.
    Symbian,
    /// Ticks are seconds since 1970-01-01.
    Unix,
    /// Ticks are intervals of 100 nanoseconds since 1582-10-15.
    UuidV1Clock,
    /// Ticks are intervals of 100 nanoseconds since 0001-01-01.
    WindowsDate,
    /// Ticks are intervals of 100 nanoseconds since 1601-01-01.
    WindowsFileTime,
    /// Days since 1899-12-30, with a fraction; takes no integer tick count.
    Icq,
    /// Milliseconds since 1970-01-01 as the leading 48 bits of a ULID; takes
    /// no integer tick count.
    Ulid,
}

/// An epoch match: a convention and the date-time that it gave to a value.
#[derive(Clone, Copy, Debug, PartialEq, Eq, Structural)]
pub struct EpochMatch {
    pub convention: Convention,
    pub time: Timestamp,
}

/// The largest tick count, in either direction, that is handed to the Google
/// Calendar conversion. Far beyond it the year of the result no longer fits
/// the 32 bits in which that conversion computes it. Nothing is lost by the
/// limit: already at a thousandth of the span the year lies past the last
/// one that a date can hold.
pub const GOOGLE_CALENDAR_SPAN: i64 = 10_000_000_000_000_000;

/// What `epochs::google_calendar` returns for `ticks`, as seconds since
/// 1970-01-01 and nanoseconds into the second.
pub uninterp spec fn google_calendar_time(ticks: i64) -> Option<(i64, u32)>;

/// Calls `epochs::apfs`, which reads `ticks` as nanoseconds since 1970-01-01.
/// Trusted: the count is taken at 1_000_000_000 to the second, from the origin
/// 1970-01-01 itself. The date-time is made of the whole seconds and of the
/// remainder as nanoseconds; there is none beyond the calendar, nor for a
/// negative count with a remainder. It is handed on as its seconds since
/// 1970-01-01 and its nanoseconds.
#[verifier::external_body]
fn apfs(ticks: i64) -> (r: Option<(i64, u32)>)
    ensures
        r == scaled_time(ticks, 1_000_000_000, 0),
{
    match epochs::apfs(ticks) {
        Some(t) => Some((t.and_utc().timestamp(), t.and_utc().timestamp_subsec_nanos())),
        None => None,
    }
}

/// Calls `epochs::chrome`, which reads `ticks` as microseconds since 1601-01-01.
/// Trusted: the count is taken at 1_000_000 to the second, from an origin
/// 11_644_473_600 seconds before 1970-01-01. The date-time is made of the
/// whole seconds and of the remainder as nanoseconds; there is none beyond the
/// calendar, nor for a negative count with a remainder. It is handed on as its
/// seconds since 1970-01-01 and its nanoseconds.
#[verifier::external_body]
fn chrome(ticks: i64) -> (r: Option<(i64, u32)>)
    ensures
        r == scaled_time(ticks, 1_000_000, -11_644_473_600),
{
    match epochs::chrome(ticks) {
        Some(t) => Some((t.and_utc().timestamp(), t.and_utc().timestamp_subsec_nanos())),
        None => None,
    }
}

/// Calls `epochs::cocoa`, which reads `ticks` as seconds since 2001-01-01.
/// Trusted: the count is taken at 1 to the second, from an origin 978_307_200
/// seconds after 1970-01-01. The date-time is made of the whole seconds and of
/// the remainder as nanoseconds; there is none beyond the calendar, nor for a
/// negative count with a remainder. It is handed on as its seconds since
/// 1970-01-01 and its nanoseconds.
#[verifier::external_body]
fn cocoa(ticks: i64) -> (r: Option<(i64, u32)>)
    ensures
        r == scaled_time(ticks, 1, 978_307_200),
{
    match epochs::cocoa(ticks) {
        Some(t) => Some((t.and_utc().timestamp(), t.and_utc().timestamp_subsec_nanos())),
        None => None,
    }
}

/// Calls `epochs::google_calendar`, which reads `ticks` as seconds in months
/// of 32 days, counted from the day before 1970-01-01.
/// Trusted: the result is a function of `ticks` alone, the one that
/// `google_calendar_time` names; the date-time that comes back is handed on
/// as its seconds since 1970-01-01 and its nanoseconds. Outside the span that is
/// required here the conversion's year arithmetic can leave the range of `i32`.
#[verifier::external_body]
fn google_calendar(ticks: i64) -> (r: Option<(i64, u32)>)
    requires
        -GOOGLE_CALENDAR_SPAN <= ticks <= GOOGLE_CALENDAR_SPAN,
    ensures
        r == google_calendar_time(ticks),
{
    match epochs::google_calendar(ticks) {
        Some(t) => Some((t.and_utc().timestamp(), t.and_utc().timestamp_subsec_nanos())),
        None => None,
    }
}

/// Calls `epochs::java`, which reads `ticks` as milliseconds since 1970-01-01.
/// Trusted: the count is taken at 1_000 to the second, from the origin
/// 1970-01-01 itself. The date-time is made of the whole seconds and of the
/// remainder as nanoseconds; there is none beyond the calendar, nor for a
/// negative count with a remainder. It is handed on as its seconds since
/// 1970-01-01 and its nanoseconds.
#[verifier::external_body]
fn java(ticks: i64) -> (r: Option<(i64, u32)>)
    ensures
        r == scaled_time(ticks, 1_000, 0),
{
    match epochs::java(ticks) {
        Some(t) => Some((t.and_utc().timestamp(), t.and_utc().timestamp_subsec_nanos())),
        None => None,
    }
}

/// Calls `epochs::mozilla`, which reads `ticks` as microseconds since 1970-01-01.
/// Trusted: the count is taken at 1_000_000 to the second, from the origin
/// 1970-01-01 itself. The date-time is made of the whole seconds and of the
/// remainder as nanoseconds; there is none beyond the calendar, nor for a
/// negative count with a remainder. It is handed on as its seconds since
/// 1970-01-01 and its nanoseconds.
#[verifier::external_body]
fn mozilla(ticks: i64) -> (r: Option<(i64, u32)>)
    ensures
        r == scaled_time(ticks, 1_000_000, 0),
{
    match epochs::mozilla(ticks) {
        Some(t) => Some((t.and_utc().timestamp(), t.and_utc().timestamp_subsec_nanos())),
        None => None,
    }
}

/// Calls `epochs::symbian`, which reads `ticks` as microseconds since the year 0.
/// Trusted: the count is taken at 1_000_000 to the second, from an origin
/// 62_167_219_200 seconds before 1970-01-01. The date-time is made of the
/// whole seconds and of the remainder as nanoseconds; there is none beyond the
/// calendar, nor for a negative count with a remainder. It is handed on as its
/// seconds since 1970-01-01 and its nanoseconds.
#[verifier::external_body]
fn symbian(ticks: i64) -> (r: Option<(i64, u32)>)
    ensures
        r == scaled_time(ticks, 1_000_000, -62_167_219_200),
{
    match epochs::symbian(ticks) {
        Some(t) => Some((t.and_utc().timestamp(), t.and_utc().timestamp_subsec_nanos())),
        None => None,
    }
}

/// Calls `epochs::unix`, which reads `ticks` as seconds since 1970-01-01.
/// Trusted: the count is taken at 1 to the second, from the origin 1970-01-01
/// itself. The date-time is made of the whole seconds and of the remainder as
/// nanoseconds; there is none beyond the calendar, nor for a negative count
/// with a remainder. It is handed on as its seconds since 1970-01-01 and its
/// nanoseconds.
#[verifier::external_body]
fn unix(ticks: i64) -> (r: Option<(i64, u32)>)
    ensures
        r == scaled_time(ticks, 1, 0),
{
    match epochs::unix(ticks) {
        Some(t) => Some((t.and_utc().timestamp(), t.and_utc().timestamp_subsec_nanos())),
        None => None,
    }
}

/// Calls `epochs::uuid_v1`, which reads `ticks` as intervals of 100 nanoseconds since 1582-10-15.
/// Trusted: the count is taken at 10_000_000 to the second, from an origin
/// 12_219_292_800 seconds before 1970-01-01. The date-time is made of the
/// whole seconds and of the remainder as nanoseconds; there is none beyond the
/// calendar, nor for a negative count with a remainder. It is handed on as its
/// seconds since 1970-01-01 and its nanoseconds.
#[verifier::external_body]
fn uuid_v1(ticks: i64) -> (r: Option<(i64, u32)>)
    ensures
        r == scaled_time(ticks, 10_000_000, -12_219_292_800),
{
    match epochs::uuid_v1(ticks) {
        Some(t) => Some((t.and_utc().timestamp(), t.and_utc().timestamp_subsec_nanos())),
        None => None,
    }
}

/// Calls `epochs::windows_date`, which reads `ticks` as intervals of 100 nanoseconds since 0001-01-01.
/// Trusted: the count is taken at 10_000_000 to the second, from an origin
/// 62_135_596_800 seconds before 1970-01-01. The date-time is made of the
/// whole seconds and of the remainder as nanoseconds; there is none beyond the
/// calendar, nor for a negative count with a remainder. It is handed on as its
/// seconds since 1970-01-01 and its nanoseconds.
#[verifier::external_body]
fn windows_date(ticks: i64) -> (r: Option<(i64, u32)>)
    ensures
        r == scaled_time(ticks, 10_000_000, -62_135_596_800),
{
    match epochs::windows_date(ticks) {
        Some(t) => Some((t.and_utc().timestamp(), t.and_utc().timestamp_subsec_nanos())),
        None => None,
    }
}

/// Calls `epochs::windows_file`, which reads `ticks` as intervals of 100 nanoseconds since 1601-01-01.
/// Trusted: the count is taken at 10_000_000 to the second, from an origin
/// 11_644_473_600 seconds before 1970-01-01. The date-time is made of the
/// whole seconds and of the remainder as nanoseconds; there is none beyond the
/// calendar, nor for a negative count with a remainder. It is handed on as its
/// seconds since 1970-01-01 and its nanoseconds.
#[verifier::external_body]
fn windows_file(ticks: i64) -> (r: Option<(i64, u32)>)
    ensures
        r == scaled_time(ticks, 10_000_000, -11_644_473_600),
{
    match epochs::windows_file(ticks) {
        Some(t) => Some((t.and_utc().timestamp(), t.and_utc().timestamp_subsec_nanos())),
        None => None,
    }
}

/// The conventions that take an integer tick count, in the order in which
/// their matches are reported.
pub open spec fn catalogue() -> Seq<Convention> {
    seq![
        Convention::Apfs,
        Convention::Chrome,
        Convention::Cocoa,
        Convention::GoogleCalendar,
        Convention::Java,
        Convention::Mozilla,
        Convention::Symbian,
        Convention::Unix,
        Convention::UuidV1Clock,
        Convention::WindowsDate,
        Convention::WindowsFileTime,
    ]
}

/// The date-time that convention `c` gives to `ticks`, if it gives one.
pub open spec fn converted(c: Convention, ticks: i64) -> Option<Timestamp> {
    match c {
        Convention::Apfs => stamp(scaled_time(ticks, 1_000_000_000, 0)),
        Convention::Chrome => stamp(scaled_time(ticks, 1_000_000, -11_644_473_600)),
        Convention::Cocoa => stamp(scaled_time(ticks, 1, 978_307_200)),
        Convention::GoogleCalendar => if -GOOGLE_CALENDAR_SPAN <= ticks <= GOOGLE_CALENDAR_SPAN {
            stamp(google_calendar_time(ticks))
        } else {
            None
        },
        Convention::Java => stamp(scaled_time(ticks, 1_000, 0)),
        Convention::Mozilla => stamp(scaled_time(ticks, 1_000_000, 0)),
        Convention::Symbian => stamp(scaled_time(ticks, 1_000_000, -62_167_219_200)),
        Convention::Unix => stamp(scaled_time(ticks, 1, 0)),
        Convention::UuidV1Clock => stamp(scaled_time(ticks, 10_000_000, -12_219_292_800)),
        Convention::WindowsDate => stamp(scaled_time(ticks, 10_000_000, -62_135_596_800)),
        Convention::WindowsFileTime => stamp(scaled_time(ticks, 10_000_000, -11_644_473_600)),
        Convention::Icq => None,
        Convention::Ulid => None,
    }
}

impl Convention {
    /// The name under which matches of this convention are reported.
    pub open spec fn label(self) -> Seq<char> {
        match self {
            Convention::Apfs => "apfs"@,
            Convention::Chrome => "chrome"@,
            Convention::Cocoa => "cocoa"@,
            Convention::GoogleCalendar => "google-calendar"@,
            Convention::Java => "java"@,
            Convention::Mozilla => "mozilla"@,
            Convention::Symbian => "symbian"@,
            Convention::Unix => "unix"@,
            Convention::UuidV1Clock => "uuid-v1-clock"@,
            Convention::WindowsDate => "windows-date"@,
            Convention::WindowsFileTime => "windows-file-time"@,
            Convention::Icq => "icq"@,
            Convention::Ulid => "ulid"@,
        }
    }

    /// The name under which matches of this convention are reported.
    pub fn name(&self) -> (s: &'static str)
        ensures
            s@ == self.label(),
    {
        match self {
            Convention::Apfs => "apfs",
            Convention::Chrome => "chrome",
            Convention::Cocoa => "cocoa",
            Convention::GoogleCalendar => "google-calendar",
            Convention::Java => "java",
            Convention::Mozilla => "mozilla",
            Convention::Symbian => "symbian",
            Convention::Unix => "unix",
            Convention::UuidV1Clock => "uuid-v1-clock",
            Convention::WindowsDate => "windows-date",
            Convention::WindowsFileTime => "windows-file-time",
            Convention::Icq => "icq",
            Convention::Ulid => "ulid",
        }
    }

    /// Reads `ticks` under this convention. A convention that takes no
    /// integer gives no date-time.
    pub fn convert(&self, ticks: i64) -> (r: Option<Timestamp>)
        ensures
            r == converted(*self, ticks),
    {
        let found: Option<(i64, u32)> = match self {
            Convention::Apfs => apfs(ticks),
            Convention::Chrome => chrome(ticks),
            Convention::Cocoa => cocoa(ticks),
            Convention::GoogleCalendar => {
                if -GOOGLE_CALENDAR_SPAN <= ticks && ticks <= GOOGLE_CALENDAR_SPAN {
                    google_calendar(ticks)
                } else {
                    None
                }
            },
            Convention::Java => java(ticks),
            Convention::Mozilla => mozilla(ticks),
            Convention::Symbian => symbian(ticks),
            Convention::Unix => unix(ticks),
            Convention::UuidV1Clock => uuid_v1(ticks),
            Convention::WindowsDate => windows_date(ticks),
            Convention::WindowsFileTime => windows_file(ticks),
            Convention::Icq => None,
            Convention::Ulid => None,
        };
        match found {
            Some((secs, nanos)) => Some(Timestamp { secs, nanos }),
            None => None,
        }
    }
}

/// The matches of `ticks` among the conventions `cs`, in the order of `cs`:
/// one for each convention that gives `ticks` a date-time whose day lies in
/// `[min, max]`.
pub open spec fn matches_among(cs: Seq<Convention>, ticks: i64, min: Date, max: Date) -> Seq<
    EpochMatch,
>
    decreases cs.len(),
{
    if cs.len() == 0 {
        Seq::empty()
    } else {
        let before = matches_among(cs.drop_last(), ticks, min, max);
        match kept(converted(cs.last(), ticks), min, max) {
            Some(time) => before.push(EpochMatch { convention: cs.last(), time }),
            None => before,
        }
    }
}

/// The matches of `ticks` over the whole catalogue.
pub open spec fn epoch_matches(ticks: i64, min: Date, max: Date) -> Seq<EpochMatch> {
    matches_among(catalogue(), ticks, min, max)
}

/// No convention is named twice in `ms`.
pub open spec fn distinct_conventions(ms: Seq<EpochMatch>) -> bool {
    forall|i: int, j: int|
        0 <= i < j < ms.len() ==> (#[trigger] ms[i]).convention != (#[trigger] ms[j]).convention
}

/// A match is reported exactly when its convention is among `cs` and gives
/// `ticks` that date-time within the window.
pub proof fn lemma_match_means(cs: Seq<Convention>, ticks: i64, min: Date, max: Date, m: EpochMatch)
    ensures
        matches_among(cs, ticks, min, max).contains(m) <==> cs.contains(m.convention) && kept(
            converted(m.convention, ticks),
            min,
            max,
        ) == Some(m.time),
    decreases cs.len(),
{
    let all = matches_among(cs, ticks, min, max);
    if cs.len() > 0 {
        let init = cs.drop_last();
        let before = matches_among(init, ticks, min, max);
        let verdict = kept(converted(cs.last(), ticks), min, max);
        lemma_match_means(init, ticks, min, max, m);
        if all.contains(m) {
            let i = choose|i: int| 0 <= i < all.len() && all[i] == m;
            if i < before.len() {
                assert(before[i] == m);
                let j = choose|j: int| 0 <= j < init.len() && init[j] == m.convention;
                assert(cs[j] == m.convention);
            } else {
                assert(verdict is Some);
                assert(m == EpochMatch { convention: cs.last(), time: verdict->0 });
                assert(cs[cs.len() - 1] == m.convention);
            }
        }
        if cs.contains(m.convention) && kept(converted(m.convention, ticks), min, max) == Some(
            m.time,
        ) {
            let j = choose|j: int| 0 <= j < cs.len() && cs[j] == m.convention;
            if j < init.len() {
                assert(init[j] == m.convention);
                let i = choose|i: int| 0 <= i < before.len() && before[i] == m;
                assert(all[i] == m);
            } else {
                assert(all[all.len() - 1] == m);
            }
        }
    }
}

/// Every reported match names a convention of `cs`.
proof fn lemma_matches_come_from(cs: Seq<Convention>, ticks: i64, min: Date, max: Date)
    ensures
        forall|i: int|
            0 <= i < matches_among(cs, ticks, min, max).len() ==> cs.contains(
                (#[trigger] matches_among(cs, ticks, min, max)[i]).convention,
            ),
{
    let all = matches_among(cs, ticks, min, max);
    assert forall|i: int| 0 <= i < all.len() implies cs.contains((#[trigger] all[i]).convention) by {
        lemma_match_means(cs, ticks, min, max, all[i]);
    }
}

/// Where no convention stands twice in `cs`, none is named twice among the
/// matches: they are a mapping from convention to date-time.
pub proof fn lemma_matches_distinct(cs: Seq<Convention>, ticks: i64, min: Date, max: Date)
    requires
        cs.no_duplicates(),
    ensures
        distinct_conventions(matches_among(cs, ticks, min, max)),
    decreases cs.len(),
{
    if cs.len() > 0 {
        let init = cs.drop_last();
        let before = matches_among(init, ticks, min, max);
        lemma_matches_distinct(init, ticks, min, max);
        lemma_matches_come_from(init, ticks, min, max);
        let all = matches_among(cs, ticks, min, max);
        assert forall|i: int, j: int| 0 <= i < j < all.len() implies (#[trigger] all[i]).convention
            != (#[trigger] all[j]).convention by {
            if j == before.len() {
                assert(all[i] == before[i]);
                let k = choose|k: int| 0 <= k < init.len() && init[k] == before[i].convention;
                assert(cs[k] == init[k]);
                assert(cs[cs.len() - 1] == all[j].convention);
            } else {
                assert(all[i] == before[i] && all[j] == before[j]);
            }
        }
    }
}

/// The catalogue names no convention twice.
pub proof fn lemma_catalogue_distinct()
    ensures
        catalogue().no_duplicates(),
{
}

/// Narrowing the window never adds a match: whatever is reported for `ticks`
/// under `[a, b]` is reported under every window `[c, d]` that holds all the
/// days of `[a, b]`.
pub proof fn lemma_narrower_window_matches_less(ticks: i64, a: Date, b: Date, c: Date, d: Date)
    requires
        forall|day: int| within(day, a, b) ==> within(day, c, d),
    ensures
        forall|m: EpochMatch| #[trigger]
            epoch_matches(ticks, a, b).contains(m) ==> epoch_matches(ticks, c, d).contains(m),
{
    assert forall|m: EpochMatch| #[trigger] epoch_matches(ticks, a, b).contains(m) implies epoch_matches(
        ticks,
        c,
        d,
    ).contains(m) by {
        lemma_match_means(catalogue(), ticks, a, b, m);
        lemma_match_means(catalogue(), ticks, c, d, m);
        lemma_kept_in_wider_window(converted(m.convention, ticks), a, b, c, d);
    }
}

/// The catalogue as a list.
fn catalogue_list() -> (list: Vec<Convention>)
    ensures
        list@ == catalogue(),
{
    let list = vec![
        Convention::Apfs,
        Convention::Chrome,
        Convention::Cocoa,
        Convention::GoogleCalendar,
        Convention::Java,
        Convention::Mozilla,
        Convention::Symbian,
        Convention::Unix,
        Convention::UuidV1Clock,
        Convention::WindowsDate,
        Convention::WindowsFileTime,
    ];
    assert(list@ =~= catalogue());
    list
}

/// Reads `ticks` under every convention of the catalogue and reports, in
/// catalogue order, each date-time whose day lies in `[min, max]`. A
/// conversion that fails and one that lands outside the window both leave no
/// trace; the list may be empty.
pub fn get_epochs(ticks: i64, min: Date, max: Date) -> (out: Vec<EpochMatch>)
    ensures
        out@ == epoch_matches(ticks, min, max),
        distinct_conventions(out@),
{
    let list = catalogue_list();
    let mut out: Vec<EpochMatch> = Vec::new();
    let mut i: usize = 0;
    while i < list.len()
        invariant
            i <= list.len(),
            list@ == catalogue(),
            out@ == matches_among(list@.take(i as int), ticks, min, max),
        decreases list.len() - i,
    {
        proof {
            assert(list@.take(i + 1).drop_last() =~= list@.take(i as int));
        }
        let convention = list[i];
        match keep_in_range(convention.convert(ticks), min, max) {
            Some(time) => {
                out.push(EpochMatch { convention, time });
            },
            None => {},
        }
        i = i + 1;
    }
    proof {
        assert(list@.take(list.len() as int) =~= list@);
        lemma_catalogue_distinct();
        lemma_matches_distinct(catalogue(), ticks, min, max);
    }
    out
}

} // verus!
