//! The survey of candidates: every reading that a string admits, each with
//! the date-times that the catalogue gives it.
//!
//! The readings are tried independently and none excludes another: a string
//! of decimal digits is also a string of hexadecimal digits, and both records
//! are reported. The records differ in one respect, which is kept on purpose.
//! A string that reads as an integer is reported even where no convention
//! gives the integer a date in the window, with no match at all; a string
//! that reads as a fractional number, a ULID or a UUID is reported only where
//! its one convention gives a date in the window.

use vstd::prelude::*;
use crate::bank::{
    catalogue, distinct_conventions, epoch_matches, get_epochs, lemma_catalogue_distinct,
    lemma_matches_distinct, Convention, EpochMatch,
};
use crate::calendar::{keep_in_range, kept, Date, Timestamp};
use crate::scalar::{as_decimal, as_hex, literal_value};
use crate::ulid::{get_ulid, is_ulid, ulid_time};
use crate::uuid::{convention_of, first_uuid, get_uuid, uuid_time, Uuid, UuidVersion};

verus! {

/// How a candidate was read.
#[derive(Clone, Copy, Debug, PartialEq, Eq, Structural)]
pub enum ViewKind {
    /// As a decimal integer.
    Decimal,
    /// As a number with a fraction.
    Float,
    /// As a hexadecimal integer.
    Hexadecimal,
    /// As a ULID.
    Ulid,
    /// As a UUID of the given version.
    Uuid(UuidVersion),
}

/// One reading of one candidate, with the matches found for it.
#[derive(Debug)]
pub struct Datelike {
    /// The candidate as it was given.
    pub source: String,
    /// How it was read.
    pub viewed_as: ViewKind,
    /// The date-times found: a mapping from convention to date-time, held
    /// as a list in the order of the catalogue, no convention twice.
    pub epochs: Vec<EpochMatch>,
}

/// A `Datelike` as a mathematical value.
pub struct Record {
    pub source: Seq<char>,
    pub viewed_as: ViewKind,
    pub epochs: Seq<EpochMatch>,
}

impl View for Datelike {
    type V = Record;

    open spec fn view(&self) -> Record {
        Record { source: self.source@, viewed_as: self.viewed_as, epochs: self.epochs@ }
    }
}

/// A candidate: the text, and the date-time that the ICQ convention gives to
/// the text read as a number of days with a fraction. That reading is the
/// caller's to make; `None` says that the text is no such number or that the
/// convention gives it no date-time.
#[derive(Debug)]
pub struct Candidate {
    pub text: String,
    pub float_time: Option<Timestamp>,
}

/// The records of a list, as mathematical values.
pub open spec fn shown(list: Seq<Datelike>) -> Seq<Record> {
    Seq::new(list.len(), |i: int| list[i]@)
}

/// The record of an integer reading: present whenever the text reads as an
/// integer, with whatever matches the catalogue gives, be it none.
pub open spec fn integer_records(
    source: Seq<char>,
    viewed_as: ViewKind,
    value: Option<int>,
    min: Date,
    max: Date,
) -> Seq<Record> {
    match value {
        Some(v) => seq![Record { source, viewed_as, epochs: epoch_matches(v as i64, min, max) }],
        None => Seq::empty(),
    }
}

/// The record of a reading with a single convention: present only where the
/// convention gave a date-time and its day lies in the window.
pub open spec fn single_records(
    source: Seq<char>,
    viewed_as: ViewKind,
    convention: Convention,
    time: Option<Timestamp>,
    min: Date,
    max: Date,
) -> Seq<Record> {
    match kept(time, min, max) {
        Some(t) => seq![
            Record { source, viewed_as, epochs: seq![EpochMatch { convention, time: t }] },
        ],
        None => Seq::empty(),
    }
}

/// The record of the UUID reading.
pub open spec fn uuid_records(source: Seq<char>, uuid: Option<Uuid>, min: Date, max: Date) -> Seq<
    Record,
> {
    match uuid {
        Some(u) => single_records(
            source,
            ViewKind::Uuid(u.spec_version()),
            convention_of(u.spec_version()),
            Some(u.spec_time()),
            min,
            max,
        ),
        None => Seq::empty(),
    }
}

/// All records of one candidate, in the order in which the readings are
/// tried: decimal, hexadecimal, fractional, ULID, UUID.
pub open spec fn records_of(
    text: Seq<char>,
    float_time: Option<Timestamp>,
    min: Date,
    max: Date,
) -> Seq<Record> {
    integer_records(text, ViewKind::Decimal, literal_value(text, 10), min, max) + integer_records(
        text,
        ViewKind::Hexadecimal,
        literal_value(text, 16),
        min,
        max,
    ) + single_records(text, ViewKind::Float, Convention::Icq, float_time, min, max)
        + single_records(text, ViewKind::Ulid, Convention::Ulid, ulid_time(text), min, max)
        + uuid_records(text, uuid_time(text), min, max)
}

/// The records of the first `upto` candidates: those of each candidate
/// together, candidate after candidate in the order given.
pub open spec fn survey_of(candidates: Seq<Candidate>, upto: int, min: Date, max: Date) -> Seq<
    Record,
>
    decreases upto,
{
    if upto <= 0 {
        Seq::empty()
    } else {
        survey_of(candidates, upto - 1, min, max) + records_of(
            candidates[upto - 1].text@,
            candidates[upto - 1].float_time,
            min,
            max,
        )
    }
}

impl ViewKind {
    /// The name under which this reading is reported.
    pub open spec fn label(self) -> Seq<char> {
        match self {
            ViewKind::Decimal => "decimal"@,
            ViewKind::Float => "float"@,
            ViewKind::Hexadecimal => "hexadecimal"@,
            ViewKind::Ulid => "ulid"@,
            ViewKind::Uuid(UuidVersion::V1) => "uuid(v1)"@,
            ViewKind::Uuid(UuidVersion::V6) => "uuid(v6)"@,
            ViewKind::Uuid(UuidVersion::V7) => "uuid(v7)"@,
        }
    }

    /// The name under which this reading is reported.
    pub fn name(&self) -> (s: &'static str)
        ensures
            s@ == self.label(),
    {
        match self {
            ViewKind::Decimal => "decimal",
            ViewKind::Float => "float",
            ViewKind::Hexadecimal => "hexadecimal",
            ViewKind::Ulid => "ulid",
            ViewKind::Uuid(UuidVersion::V1) => "uuid(v1)",
            ViewKind::Uuid(UuidVersion::V6) => "uuid(v6)",
            ViewKind::Uuid(UuidVersion::V7) => "uuid(v7)",
        }
    }
}

/// Adds the record of an integer reading to `out`.
fn push_integer(
    out: &mut Vec<Datelike>,
    text: &str,
    viewed_as: ViewKind,
    value: Option<i64>,
    min: Date,
    max: Date,
)
    ensures
        shown(final(out)@) == shown(old(out)@) + integer_records(
            text@,
            viewed_as,
            crate::scalar::widen(value),
            min,
            max,
        ),
{
    match value {
        Some(v) => {
            let record = Datelike { source: text.to_owned(), viewed_as, epochs: get_epochs(v, min, max) };
            out.push(record);
            assert(shown(out@) =~= shown(old(out)@) + seq![record@]);
        },
        None => {
            assert(shown(out@) =~= shown(old(out)@) + Seq::<Record>::empty());
        },
    }
}

/// Adds the record of a reading with a single convention to `out`.
fn push_single(
    out: &mut Vec<Datelike>,
    text: &str,
    viewed_as: ViewKind,
    convention: Convention,
    time: Option<Timestamp>,
    min: Date,
    max: Date,
)
    ensures
        shown(final(out)@) == shown(old(out)@) + single_records(
            text@,
            viewed_as,
            convention,
            time,
            min,
            max,
        ),
{
    match keep_in_range(time, min, max) {
        Some(t) => {
            let mut epochs: Vec<EpochMatch> = Vec::new();
            epochs.push(EpochMatch { convention, time: t });
            assert(epochs@ =~= seq![EpochMatch { convention, time: t }]);
            let record = Datelike { source: text.to_owned(), viewed_as, epochs };
            out.push(record);
            assert(shown(out@) =~= shown(old(out)@) + seq![record@]);
        },
        None => {
            assert(shown(out@) =~= shown(old(out)@) + Seq::<Record>::empty());
        },
    }
}

/// Adds all records of one candidate to `out`.
fn push_views(
    out: &mut Vec<Datelike>,
    text: &str,
    float_time: Option<Timestamp>,
    min: Date,
    max: Date,
)
    ensures
        shown(final(out)@) == shown(old(out)@) + records_of(text@, float_time, min, max),
{
    push_integer(out, text, ViewKind::Decimal, as_decimal(text), min, max);
    push_integer(out, text, ViewKind::Hexadecimal, as_hex(text), min, max);
    push_single(out, text, ViewKind::Float, Convention::Icq, float_time, min, max);
    push_single(out, text, ViewKind::Ulid, Convention::Ulid, get_ulid(text), min, max);
    match get_uuid(text) {
        Some(uuid) => {
            push_single(
                out,
                text,
                ViewKind::Uuid(uuid.version()),
                uuid.version().convention(),
                Some(uuid.time()),
                min,
                max,
            );
        },
        None => {},
    }
    assert(shown(out@) =~= shown(old(out)@) + records_of(text@, float_time, min, max));
}

/// Reads one candidate in every way it admits and reports a record for each
/// reading, in the order decimal, hexadecimal, fractional, ULID, UUID.
/// `float_time` is the date-time that the ICQ convention gives to the text
/// read as a number with a fraction, where the caller found one.
pub fn views_of(text: &str, float_time: Option<Timestamp>, min: Date, max: Date) -> (out: Vec<
    Datelike,
>)
    ensures
        shown(out@) == records_of(text@, float_time, min, max),
{
    let mut out: Vec<Datelike> = Vec::new();
    push_views(&mut out, text, float_time, min, max);
    assert(shown(out@) =~= records_of(text@, float_time, min, max));
    out
}

/// Surveys a list of candidates: the records of each, candidate after
/// candidate in the order given.
pub fn survey(candidates: &Vec<Candidate>, min: Date, max: Date) -> (out: Vec<Datelike>)
    ensures
        shown(out@) == survey_of(candidates@, candidates.len() as int, min, max),
{
    let mut out: Vec<Datelike> = Vec::new();
    let mut i: usize = 0;
    assert(shown(out@) =~= survey_of(candidates@, 0, min, max));
    while i < candidates.len()
        invariant
            i <= candidates.len(),
            shown(out@) == survey_of(candidates@, i as int, min, max),
        decreases candidates.len() - i,
    {
        let candidate = &candidates[i];
        push_views(&mut out, candidate.text.as_str(), candidate.float_time, min, max);
        i = i + 1;
    }
    out
}

/// A survey is a function of the candidates and the window: two surveys of
/// the same list under the same window report the same records in the same
/// order.
pub proof fn lemma_survey_repeats(
    candidates: Seq<Candidate>,
    min: Date,
    max: Date,
    first: Seq<Datelike>,
    second: Seq<Datelike>,
)
    requires
        shown(first) == survey_of(candidates, candidates.len() as int, min, max),
        shown(second) == survey_of(candidates, candidates.len() as int, min, max),
    ensures
        first.len() == second.len(),
        forall|i: int| 0 <= i < first.len() ==> (#[trigger] first[i])@ == second[i]@,
{
    assert(shown(first).len() == first.len());
    assert(shown(second).len() == second.len());
    assert forall|i: int| 0 <= i < first.len() implies (#[trigger] first[i])@ == second[i]@ by {
        assert(shown(first)[i] == first[i]@);
        assert(shown(second)[i] == second[i]@);
    }
}

/// A text that is a decimal and a hexadecimal integer, that is no ULID and
/// holds no UUID, and whose fractional reading has no date in the window, has
/// exactly two records: the decimal one, then the hexadecimal one, each with
/// the matches of its integer, which may be none.
pub proof fn lemma_integer_text_has_two_records(
    text: Seq<char>,
    float_time: Option<Timestamp>,
    min: Date,
    max: Date,
)
    requires
        literal_value(text, 10) is Some,
        literal_value(text, 16) is Some,
        !is_ulid(text),
        first_uuid(text) is None,
        kept(float_time, min, max) is None,
    ensures
        records_of(text, float_time, min, max) == seq![
            Record {
                source: text,
                viewed_as: ViewKind::Decimal,
                epochs: epoch_matches(literal_value(text, 10)->0 as i64, min, max),
            },
            Record {
                source: text,
                viewed_as: ViewKind::Hexadecimal,
                epochs: epoch_matches(literal_value(text, 16)->0 as i64, min, max),
            },
        ],
{
    assert(records_of(text, float_time, min, max) =~= seq![
        Record {
            source: text,
            viewed_as: ViewKind::Decimal,
            epochs: epoch_matches(literal_value(text, 10)->0 as i64, min, max),
        },
        Record {
            source: text,
            viewed_as: ViewKind::Hexadecimal,
            epochs: epoch_matches(literal_value(text, 16)->0 as i64, min, max),
        },
    ]);
}

/// Every record of a candidate is the one record of one of its five
/// readings.
pub proof fn lemma_record_has_a_reading(
    text: Seq<char>,
    float_time: Option<Timestamp>,
    min: Date,
    max: Date,
    i: int,
)
    requires
        0 <= i < records_of(text, float_time, min, max).len(),
    ensures
        ({
            let record = seq![records_of(text, float_time, min, max)[i]];
            ||| record == integer_records(
                text,
                ViewKind::Decimal,
                literal_value(text, 10),
                min,
                max,
            )
            ||| record == integer_records(
                text,
                ViewKind::Hexadecimal,
                literal_value(text, 16),
                min,
                max,
            )
            ||| record == single_records(
                text,
                ViewKind::Float,
                Convention::Icq,
                float_time,
                min,
                max,
            )
            ||| record == single_records(
                text,
                ViewKind::Ulid,
                Convention::Ulid,
                ulid_time(text),
                min,
                max,
            )
            ||| record == uuid_records(text, uuid_time(text), min, max)
        }),
{
    let all = records_of(text, float_time, min, max);
    let decimal = integer_records(text, ViewKind::Decimal, literal_value(text, 10), min, max);
    let hex = integer_records(text, ViewKind::Hexadecimal, literal_value(text, 16), min, max);
    let float = single_records(text, ViewKind::Float, Convention::Icq, float_time, min, max);
    let ulid = single_records(text, ViewKind::Ulid, Convention::Ulid, ulid_time(text), min, max);
    let uuid = uuid_records(text, uuid_time(text), min, max);
    let a = decimal.len() as int;
    let b = a + hex.len();
    let c = b + float.len();
    let d = c + ulid.len();
    let record = seq![all[i]];
    if i < a {
        assert(record =~= decimal);
    } else if i < b {
        assert(record =~= hex);
    } else if i < c {
        assert(record =~= float);
    } else if i < d {
        assert(record =~= ulid);
    } else {
        assert(record =~= uuid);
    }
}

/// Every record of a candidate names each convention at most once: its
/// matches are a mapping from convention to date-time.
pub proof fn lemma_records_are_mappings(
    text: Seq<char>,
    float_time: Option<Timestamp>,
    min: Date,
    max: Date,
)
    ensures
        forall|i: int|
            0 <= i < records_of(text, float_time, min, max).len() ==> distinct_conventions(
                (#[trigger] records_of(text, float_time, min, max)[i]).epochs,
            ),
{
    let all = records_of(text, float_time, min, max);
    lemma_catalogue_distinct();
    if literal_value(text, 10) is Some {
        lemma_matches_distinct(catalogue(), literal_value(text, 10)->0 as i64, min, max);
    }
    if literal_value(text, 16) is Some {
        lemma_matches_distinct(catalogue(), literal_value(text, 16)->0 as i64, min, max);
    }
    assert forall|i: int| 0 <= i < all.len() implies distinct_conventions(
        (#[trigger] all[i]).epochs,
    ) by {
        lemma_record_has_a_reading(text, float_time, min, max, i);
        assert(seq![all[i]][0] == all[i]);
    }
}

/// The two kinds of record. A text that reads as an integer has the record
/// of that reading, matches or none; every record of another reading holds
/// exactly one match.
pub proof fn lemma_which_records_are_kept(
    text: Seq<char>,
    float_time: Option<Timestamp>,
    min: Date,
    max: Date,
)
    ensures
        literal_value(text, 10) is Some ==> records_of(text, float_time, min, max).len() > 0
            && records_of(text, float_time, min, max)[0].viewed_as == ViewKind::Decimal,
        literal_value(text, 16) is Some ==> exists|i: int|
            0 <= i < records_of(text, float_time, min, max).len() && (#[trigger] records_of(
                text,
                float_time,
                min,
                max,
            )[i]).viewed_as == ViewKind::Hexadecimal,
        forall|i: int|
            0 <= i < records_of(text, float_time, min, max).len() ==> {
                let record = #[trigger] records_of(text, float_time, min, max)[i];
                record.viewed_as == ViewKind::Decimal || record.viewed_as == ViewKind::Hexadecimal
                    || record.epochs.len() == 1
            },
{
    let all = records_of(text, float_time, min, max);
    let decimal = integer_records(text, ViewKind::Decimal, literal_value(text, 10), min, max);
    let hex = integer_records(text, ViewKind::Hexadecimal, literal_value(text, 16), min, max);
    if literal_value(text, 10) is Some {
        assert(all[0] == decimal[0]);
    }
    if literal_value(text, 16) is Some {
        assert(all[decimal.len() as int] == hex[0]);
    }
    assert forall|i: int| 0 <= i < all.len() implies {
        let record = #[trigger] all[i];
        record.viewed_as == ViewKind::Decimal || record.viewed_as == ViewKind::Hexadecimal
            || record.epochs.len() == 1
    } by {
        lemma_record_has_a_reading(text, float_time, min, max, i);
        assert(seq![all[i]][0] == all[i]);
    }
}

} // verus!
