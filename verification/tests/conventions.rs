use datelike::bank::{get_epochs, Convention, EpochMatch, GOOGLE_CALENDAR_SPAN};
use datelike::calendar::{in_range, keep_in_range, Date, Timestamp};

fn day_of_calendar(year: i32, month: u32, day: u32) -> Date {
    let date = chrono::NaiveDate::from_ymd_opt(year, month, day).unwrap();
    let origin = chrono::NaiveDate::from_ymd_opt(1970, 1, 1).unwrap();
    Date { days: (date - origin).num_days() }
}

fn iso(t: Timestamp) -> String {
    format!("{:?}", chrono::DateTime::from_timestamp(t.secs, t.nanos).unwrap().naive_utc())
}

fn plain(t: Option<chrono::NaiveDateTime>) -> Option<Timestamp> {
    t.map(|t| Timestamp { secs: t.and_utc().timestamp(), nanos: t.and_utc().timestamp_subsec_nanos() })
}

fn named(matches: &Vec<EpochMatch>) -> Vec<(String, String)> {
    matches.iter().map(|m| (m.convention.name().to_string(), iso(m.time))).collect()
}

fn pair(name: &str, time: &str) -> (String, String) {
    (name.to_string(), time.to_string())
}

#[test]
fn every_convention_reads_its_documented_example() {
    let expected = Some(Timestamp { secs: 1_234_567_890, nanos: 0 });
    assert_eq!(Convention::Apfs.convert(1_234_567_890_000_000_000), expected);
    assert_eq!(Convention::Chrome.convert(12_879_041_490_000_000), expected);
    assert_eq!(Convention::Cocoa.convert(256_260_690), expected);
    assert_eq!(Convention::GoogleCalendar.convert(1_297_899_090), expected);
    assert_eq!(Convention::Java.convert(1_234_567_890_000), expected);
    assert_eq!(Convention::Mozilla.convert(1_234_567_890_000_000), expected);
    assert_eq!(Convention::Symbian.convert(63_401_787_090_000_000), expected);
    assert_eq!(Convention::Unix.convert(1_234_567_890), expected);
    assert_eq!(Convention::UuidV1Clock.convert(134_538_606_900_000_000), expected);
    assert_eq!(Convention::WindowsDate.convert(633_701_646_900_000_000), expected);
    assert_eq!(Convention::WindowsFileTime.convert(128_790_414_900_000_000), expected);
}

#[test]
fn conversions_keep_the_fraction_of_a_second() {
    assert_eq!(
        Convention::Chrome.convert(12_912_187_816_559_001),
        Some(Timestamp { secs: 1_267_714_216, nanos: 559_001_000 })
    );
    assert_eq!(iso(Convention::Chrome.convert(12_912_187_816_559_001).unwrap()), "2010-03-04T14:50:16.559001");
    assert_eq!(
        Convention::UuidV1Clock.convert(0x1ea4f7dca4892ce),
        plain(epochs::uuid_v1(0x1ea4f7dca4892ce))
    );
    assert_eq!(iso(Convention::UuidV1Clock.convert(0x1ea4f7dca4892ce).unwrap()), "2020-02-14T23:00:27.148155");
}

#[test]
fn conventions_without_an_integer_reading_convert_nothing() {
    assert_eq!(Convention::Icq.convert(39_857), None);
    assert_eq!(Convention::Ulid.convert(1_645_557_742_000), None);
}

#[test]
fn conversions_agree_with_the_bank() {
    let samples: Vec<i64> = vec![
        0,
        1,
        -1,
        100,
        256,
        1_234_567_890,
        -1_234_567_890,
        1_297_899_090,
        1_234_567_890_000,
        137_198_066_804_726_340,
        i64::MAX,
        i64::MIN,
        GOOGLE_CALENDAR_SPAN,
        -GOOGLE_CALENDAR_SPAN,
        8_000_000_000_000,
        -8_000_000_000_000,
    ];
    for v in samples {
        assert_eq!(Convention::Apfs.convert(v), plain(epochs::apfs(v)));
        assert_eq!(Convention::Chrome.convert(v), plain(epochs::chrome(v)));
        assert_eq!(Convention::Cocoa.convert(v), plain(epochs::cocoa(v)));
        assert_eq!(Convention::Java.convert(v), plain(epochs::java(v)));
        assert_eq!(Convention::Mozilla.convert(v), plain(epochs::mozilla(v)));
        assert_eq!(Convention::Symbian.convert(v), plain(epochs::symbian(v)));
        assert_eq!(Convention::Unix.convert(v), plain(epochs::unix(v)));
        assert_eq!(Convention::UuidV1Clock.convert(v), plain(epochs::uuid_v1(v)));
        assert_eq!(Convention::WindowsDate.convert(v), plain(epochs::windows_date(v)));
        assert_eq!(Convention::WindowsFileTime.convert(v), plain(epochs::windows_file(v)));
        if -GOOGLE_CALENDAR_SPAN <= v && v <= GOOGLE_CALENDAR_SPAN {
            assert_eq!(Convention::GoogleCalendar.convert(v), plain(epochs::google_calendar(v)));
        } else {
            assert_eq!(Convention::GoogleCalendar.convert(v), None);
        }
    }
}

#[test]
fn google_calendar_beyond_its_span_gives_nothing() {
    // The year of this count is past what 32 bits hold.
    assert_eq!(Convention::GoogleCalendar.convert(71_248_348_505_702_400), None);
    assert_eq!(Convention::GoogleCalendar.convert(GOOGLE_CALENDAR_SPAN + 1), None);
    assert_eq!(Convention::GoogleCalendar.convert(-GOOGLE_CALENDAR_SPAN - 1), None);
    assert_eq!(Convention::GoogleCalendar.convert(i64::MAX), None);
    assert_eq!(Convention::GoogleCalendar.convert(i64::MIN), None);
    // At the ends of the span the years are already far past the calendar.
    assert_eq!(Convention::GoogleCalendar.convert(GOOGLE_CALENDAR_SPAN), None);
    assert_eq!(Convention::GoogleCalendar.convert(-GOOGLE_CALENDAR_SPAN), None);
}

#[test]
fn convention_names() {
    assert_eq!(Convention::Apfs.name(), "apfs");
    assert_eq!(Convention::Chrome.name(), "chrome");
    assert_eq!(Convention::Cocoa.name(), "cocoa");
    assert_eq!(Convention::GoogleCalendar.name(), "google-calendar");
    assert_eq!(Convention::Java.name(), "java");
    assert_eq!(Convention::Mozilla.name(), "mozilla");
    assert_eq!(Convention::Symbian.name(), "symbian");
    assert_eq!(Convention::Unix.name(), "unix");
    assert_eq!(Convention::UuidV1Clock.name(), "uuid-v1-clock");
    assert_eq!(Convention::WindowsDate.name(), "windows-date");
    assert_eq!(Convention::WindowsFileTime.name(), "windows-file-time");
    assert_eq!(Convention::Icq.name(), "icq");
    assert_eq!(Convention::Ulid.name(), "ulid");
}

#[test]
fn date_of_a_time_rounds_down() {
    assert_eq!(Timestamp { secs: 0, nanos: 0 }.date(), Date { days: 0 });
    assert_eq!(Timestamp { secs: 86_399, nanos: 999_999_999 }.date(), Date { days: 0 });
    assert_eq!(Timestamp { secs: 86_400, nanos: 0 }.date(), Date { days: 1 });
    assert_eq!(Timestamp { secs: -1, nanos: 0 }.date(), Date { days: -1 });
    assert_eq!(Timestamp { secs: -86_400, nanos: 0 }.date(), Date { days: -1 });
    assert_eq!(Timestamp { secs: -86_401, nanos: 0 }.date(), Date { days: -2 });
    assert_eq!(Timestamp { secs: 1_234_567_890, nanos: 0 }.date(), day_of_calendar(2009, 2, 13));
    assert_eq!(Timestamp { secs: i64::MAX, nanos: 0 }.date(), Date { days: 106_751_991_167_300 });
    assert_eq!(Timestamp { secs: i64::MIN, nanos: 0 }.date(), Date { days: -106_751_991_167_301 });
}

#[test]
fn date_agrees_with_the_calendar() {
    let samples: Vec<i64> = vec![0, -1, 1, 86_399, 86_400, -86_400, -86_401, 951_782_399, 951_782_400, -12_219_292_800];
    for secs in samples {
        let there = chrono::DateTime::from_timestamp(secs, 0).unwrap().naive_utc().date();
        let origin = chrono::NaiveDate::from_ymd_opt(1970, 1, 1).unwrap();
        assert_eq!(Timestamp { secs, nanos: 0 }.date().days, (there - origin).num_days());
    }
}

#[test]
fn range_includes_both_ends() {
    let min = day_of_calendar(2000, 1, 1);
    let max = day_of_calendar(2100, 12, 31);
    assert_eq!(min, Date { days: 10_957 });
    assert_eq!(max, Date { days: 47_846 });
    assert!(in_range(min, min, max));
    assert!(in_range(max, min, max));
    assert!(in_range(day_of_calendar(2009, 2, 13), min, max));
    assert!(!in_range(Date { days: 10_956 }, min, max));
    assert!(!in_range(Date { days: 47_847 }, min, max));
    assert!(in_range(min, min, min));
    assert!(!in_range(min, max, min));
}

#[test]
fn range_ignores_the_time_of_day() {
    let min = day_of_calendar(2000, 1, 1);
    let max = day_of_calendar(2000, 1, 1);
    let first = Timestamp { secs: 946_684_800, nanos: 0 };
    let last = Timestamp { secs: 946_684_800 + 86_399, nanos: 999_999_999 };
    assert_eq!(keep_in_range(Some(first), min, max), Some(first));
    assert_eq!(keep_in_range(Some(last), min, max), Some(last));
    assert_eq!(keep_in_range(Some(Timestamp { secs: 946_684_799, nanos: 999_999_999 }), min, max), None);
    assert_eq!(keep_in_range(Some(Timestamp { secs: 946_684_800 + 86_400, nanos: 0 }), min, max), None);
    assert_eq!(keep_in_range(None, min, max), None);
}

#[test]
fn epochs_of_a_unix_time() {
    let min = day_of_calendar(2000, 1, 1);
    let max = day_of_calendar(2100, 12, 31);
    let found = get_epochs(1_234_567_890, min, max);
    assert_eq!(
        named(&found),
        vec![
            pair("cocoa", "2040-02-14T23:31:30"),
            pair("google-calendar", "2007-03-16T23:31:30"),
            pair("unix", "2009-02-13T23:31:30"),
        ]
    );
}

#[test]
fn epochs_may_be_none() {
    let min = day_of_calendar(2000, 1, 1);
    let max = day_of_calendar(2100, 12, 31);
    assert_eq!(get_epochs(100, day_of_calendar(2010, 1, 1), max), Vec::<EpochMatch>::new());
    assert_eq!(get_epochs(-100_000_000, min, max), Vec::<EpochMatch>::new());
    // Seconds after the first day of 2001 are the only reading of 100 in the window.
    assert_eq!(
        get_epochs(100, min, max),
        vec![EpochMatch { convention: Convention::Cocoa, time: Timestamp { secs: 978_307_300, nanos: 0 } }]
    );
    assert_eq!(get_epochs(i64::MAX, min, max), Vec::<EpochMatch>::new());
    assert_eq!(get_epochs(i64::MIN, min, max), Vec::<EpochMatch>::new());
    // An empty window keeps nothing.
    assert_eq!(get_epochs(1_234_567_890, max, min), Vec::<EpochMatch>::new());
}

#[test]
fn epochs_in_a_wide_window_are_all_conversions() {
    let min = Date { days: i64::MIN };
    let max = Date { days: i64::MAX };
    let found = get_epochs(1_234_567_890, min, max);
    assert_eq!(found.len(), 11);
    assert_eq!(
        named(&found).into_iter().map(|p| p.0).collect::<Vec<String>>(),
        vec![
            "apfs", "chrome", "cocoa", "google-calendar", "java", "mozilla", "symbian", "unix",
            "uuid-v1-clock", "windows-date", "windows-file-time",
        ]
    );
    assert_eq!(found[0].time, Timestamp { secs: 1, nanos: 234_567_890 });
    assert_eq!(found[4].time, Timestamp { secs: 1_234_567, nanos: 890_000_000 });
}

#[test]
fn narrower_window_reports_a_part_of_the_wider() {
    let samples: Vec<i64> = vec![1_234_567_890, 256_260_690, 1_297_899_090, 1_234_567_890_000, 137_198_066_804_726_340, 0, -5];
    let a = day_of_calendar(2005, 1, 1);
    let b = day_of_calendar(2010, 1, 1);
    let c = day_of_calendar(2000, 1, 1);
    let d = day_of_calendar(2100, 12, 31);
    for v in samples {
        let narrow = get_epochs(v, a, b);
        let wide = get_epochs(v, c, d);
        for m in &narrow {
            assert!(wide.contains(m));
        }
        assert!(narrow.len() <= wide.len());
    }
    let narrow = get_epochs(1_234_567_890, a, b);
    assert_eq!(
        named(&narrow),
        vec![pair("google-calendar", "2007-03-16T23:31:30"), pair("unix", "2009-02-13T23:31:30")]
    );
}

fn scaled(ticks: i64, per_second: i128, shift: i128) -> Option<Timestamp> {
    let count = ticks as i128;
    if count < 0 && count.rem_euclid(per_second) != 0 {
        return None;
    }
    let secs = count.div_euclid(per_second) + shift;
    if secs < datelike::calendar::FIRST_SECOND as i128 || secs > datelike::calendar::LAST_SECOND as i128 {
        return None;
    }
    let nanos = count.rem_euclid(per_second) * (1_000_000_000 / per_second);
    Some(Timestamp { secs: secs as i64, nanos: nanos as u32 })
}

fn scales() -> Vec<(Convention, i128, i128)> {
    vec![
        (Convention::Apfs, 1_000_000_000, 0),
        (Convention::Chrome, 1_000_000, -11_644_473_600),
        (Convention::Cocoa, 1, 978_307_200),
        (Convention::Java, 1_000, 0),
        (Convention::Mozilla, 1_000_000, 0),
        (Convention::Symbian, 1_000_000, -62_167_219_200),
        (Convention::Unix, 1, 0),
        (Convention::UuidV1Clock, 10_000_000, -12_219_292_800),
        (Convention::WindowsDate, 10_000_000, -62_135_596_800),
        (Convention::WindowsFileTime, 10_000_000, -11_644_473_600),
    ]
}

#[test]
fn scaled_conversions_are_a_division_and_a_shift() {
    let first = datelike::calendar::FIRST_SECOND as i128;
    let last = datelike::calendar::LAST_SECOND as i128;
    for (convention, per_second, shift) in scales() {
        let mut samples: Vec<i128> = vec![
            0,
            1,
            -1,
            99,
            100,
            256,
            999,
            1_000,
            -1_000,
            -999,
            1_234_567_890,
            -1_234_567_890,
            1_234_567_890_123_456_789,
            -1_234_567_890_000_000_000,
            i64::MAX as i128,
            i64::MIN as i128,
            i64::MAX as i128 - 1,
            i64::MIN as i128 + 1,
            per_second,
            -per_second,
            per_second - 1,
            1 - per_second,
            per_second + 1,
            -per_second - 1,
        ];
        for edge in [first, last] {
            for step in [-2i128, -1, 0, 1, 2] {
                let secs = edge - shift + step;
                samples.push(secs * per_second);
                samples.push(secs * per_second + per_second - 1);
                samples.push(secs * per_second + 1);
                samples.push(secs * per_second - 1);
            }
        }
        for sample in samples {
            if sample < i64::MIN as i128 || sample > i64::MAX as i128 {
                continue;
            }
            let ticks = sample as i64;
            assert_eq!(
                convention.convert(ticks),
                scaled(ticks, per_second, shift),
                "{:?} {}",
                convention,
                ticks
            );
        }
    }
}

#[test]
fn negative_counts_need_whole_seconds() {
    assert_eq!(Convention::Java.convert(-1), None);
    assert_eq!(Convention::Java.convert(-999), None);
    assert_eq!(Convention::Java.convert(-1_000), Some(Timestamp { secs: -1, nanos: 0 }));
    assert_eq!(Convention::Java.convert(-1_001), None);
    assert_eq!(Convention::Unix.convert(-1), Some(Timestamp { secs: -1, nanos: 0 }));
    assert_eq!(Convention::Apfs.convert(-1_000_000_000), Some(Timestamp { secs: -1, nanos: 0 }));
    assert_eq!(Convention::Apfs.convert(-1), None);
    assert_eq!(
        Convention::UuidV1Clock.convert(0),
        Some(Timestamp { secs: -12_219_292_800, nanos: 0 })
    );
    assert_eq!(
        Convention::UuidV1Clock.convert(1),
        Some(Timestamp { secs: -12_219_292_800, nanos: 100 })
    );
}

#[test]
fn conversions_end_with_the_calendar() {
    let last = datelike::calendar::LAST_SECOND;
    let first = datelike::calendar::FIRST_SECOND;
    assert_eq!(Convention::Unix.convert(last), Some(Timestamp { secs: last, nanos: 0 }));
    assert_eq!(Convention::Unix.convert(last + 1), None);
    assert_eq!(Convention::Unix.convert(first), Some(Timestamp { secs: first, nanos: 0 }));
    assert_eq!(Convention::Unix.convert(first - 1), None);
    assert_eq!(
        Convention::Cocoa.convert(last - 978_307_200),
        Some(Timestamp { secs: last, nanos: 0 })
    );
    assert_eq!(Convention::Cocoa.convert(last - 978_307_200 + 1), None);
    assert_eq!(Convention::Cocoa.convert(i64::MAX), None);
    assert_eq!(Convention::Cocoa.convert(i64::MIN), None);
}
