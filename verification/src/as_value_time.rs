//! Converting SQL values to dates, times and timestamps, and reading them
//! from the start of a text in the layouts the library accepts.
use vstd::prelude::*;
use vstd::string::StrSliceExecFns;
use crate::as_value::{AsValue, eq_ignore_case, eq_ignore_ascii_case};
use crate::as_value_interval::{letters_len, trim_space, trim_start};
use crate::parse::{OffsetTimestamp, time_layouts, timestamp_layouts};
use crate::parse_int::ConversionError;
use crate::sql_writer::{DateValue, TimeValue};
use crate::value::{TimestampValue, Value};
use time::format_description::parse_borrowed;
use time::parsing::Parsed;

verus! {

/// What `time`'s `Parsed::parse_items` followed by the conversion to a
/// `time::Date` reads from the start of the input in the layout written as
/// `format`: `None` when the start does not match the layout (or what
/// matches ends inside a character, which a layout that skips a count of
/// bytes can do), `Some(None)` when it matches but names no valid date,
/// else the date and the text after what was read.
pub uninterp spec fn date_prefix(input: Seq<char>, format: Seq<char>) -> Option<
    Option<(DateValue, Seq<char>)>,
>;

/// As [`date_prefix`], for a `time::Time`.
pub uninterp spec fn time_prefix(input: Seq<char>, format: Seq<char>) -> Option<
    Option<(TimeValue, Seq<char>)>,
>;

/// As [`date_prefix`], for a `time::PrimitiveDateTime`.
pub uninterp spec fn timestamp_prefix(input: Seq<char>, format: Seq<char>) -> Option<
    Option<(TimestampValue, Seq<char>)>,
>;

/// `Parsed::parse_items` with the layout `format`, then the conversion to a
/// `time::Date` (see [`date_prefix`]). A date that `time` builds has a year
/// in `-9999..=9999`.
#[verifier::external_body]
fn date_prefix_with<'a>(input: &'a str, format: &str) -> (r: Option<Option<(DateValue, &'a str)>>)
    ensures
        match r {
            None => date_prefix(input@, format@) is None,
            Some(None) => date_prefix(input@, format@) == Some(None::<(DateValue, Seq<char>)>),
            Some(Some((d, rest))) => date_prefix(input@, format@) == Some(Some((d, rest@))),
        },
        r matches Some(Some((d, _))) ==> -9999 <= d.year <= 9999,
{
    let mut parsed = Parsed::new();
    let remaining = parsed.parse_items(input.as_bytes(), &parse_borrowed::<2>(format).ok()?).ok()?;
    let d: time::Date = match parsed.try_into() {
        Ok(d) => d,
        Err(_) => return Some(None),
    };
    let rest = input.get(input.len() - remaining.len()..)?;
    Some(Some((DateValue { year: d.year(), month: d.month() as u8, day: d.day() }, rest)))
}

/// `Parsed::parse_items` with the layout `format`, then the conversion to a
/// `time::Time` (see [`time_prefix`]).
#[verifier::external_body]
fn time_prefix_with<'a>(input: &'a str, format: &str) -> (r: Option<Option<(TimeValue, &'a str)>>)
    ensures
        match r {
            None => time_prefix(input@, format@) is None,
            Some(None) => time_prefix(input@, format@) == Some(None::<(TimeValue, Seq<char>)>),
            Some(Some((t, rest))) => time_prefix(input@, format@) == Some(Some((t, rest@))),
        },
{
    let mut parsed = Parsed::new();
    let remaining = parsed.parse_items(input.as_bytes(), &parse_borrowed::<2>(format).ok()?).ok()?;
    let t: time::Time = match parsed.try_into() {
        Ok(t) => t,
        Err(_) => return Some(None),
    };
    let rest = input.get(input.len() - remaining.len()..)?;
    let value = TimeValue { hour: t.hour(), minute: t.minute(), second: t.second(), nanosecond: t.nanosecond() };
    Some(Some((value, rest)))
}

/// `Parsed::parse_items` with the layout `format`, then the conversion to a
/// `time::PrimitiveDateTime` (see [`timestamp_prefix`]).
#[verifier::external_body]
fn timestamp_prefix_with<'a>(input: &'a str, format: &str) -> (r: Option<Option<(TimestampValue, &'a str)>>)
    ensures
        match r {
            None => timestamp_prefix(input@, format@) is None,
            Some(None) => timestamp_prefix(input@, format@) == Some(None::<(TimestampValue, Seq<char>)>),
            Some(Some((v, rest))) => timestamp_prefix(input@, format@) == Some(Some((v, rest@))),
        },
{
    let mut parsed = Parsed::new();
    let remaining = parsed.parse_items(input.as_bytes(), &parse_borrowed::<2>(format).ok()?).ok()?;
    let Ok(v) = time::PrimitiveDateTime::try_from(parsed) else { return Some(None) };
    let date = DateValue { year: v.year(), month: v.month() as u8, day: v.day() };
    let time = TimeValue { hour: v.hour(), minute: v.minute(), second: v.second(), nanosecond: v.nanosecond() };
    let rest = input.get(input.len() - remaining.len()..)?;
    Some(Some((TimestampValue { date, time }, rest)))
}

/// Whether the year is a leap year of the proleptic Gregorian calendar.
pub open spec fn leap_year(year: int) -> bool {
    year % 4 == 0 && (year % 100 != 0 || year % 400 == 0)
}

/// The number of days of the month.
pub open spec fn days_in_month(year: int, month: int) -> int {
    if month == 2 {
        if leap_year(year) {
            29
        } else {
            28
        }
    } else if month == 4 || month == 6 || month == 9 || month == 11 {
        30
    } else {
        31
    }
}

/// Whether `time::Date::from_calendar_date` accepts the year, month and
/// day: a year in `-9999..=9999`, a month in `1..=12` and a day of it.
pub open spec fn valid_date(year: int, month: int, day: int) -> bool {
    -9999 <= year <= 9999 && 1 <= month <= 12 && 1 <= day <= days_in_month(year, month)
}

/// `time::Date::from_calendar_date` (with the month given by its number):
/// the date when it is valid.
#[verifier::external_body]
fn calendar_date(year: i32, month: u8, day: u8) -> (r: Option<DateValue>)
    ensures
        r == (if valid_date(year as int, month as int, day as int) {
            Some(DateValue { year, month, day })
        } else {
            None
        }),
{
    let month = time::Month::try_from(month).ok()?;
    let d = time::Date::from_calendar_date(year, month, day).ok()?;
    Some(DateValue { year: d.year(), month: d.month() as u8, day: d.day() })
}

/// The first layout read that matches: its value and the rest, or
/// `OutOfRange` when that layout names no valid value; `Unparsable` when
/// no layout matches.
pub open spec fn first_layout<T>(reads: Seq<Option<Option<(T, Seq<char>)>>>) -> Result<
    (T, Seq<char>),
    ConversionError,
>
    decreases reads.len(),
{
    if reads.len() == 0 {
        Err(ConversionError::Unparsable)
    } else {
        match reads[0] {
            None => first_layout(reads.drop_first()),
            Some(None) => Err(ConversionError::OutOfRange),
            Some(Some(x)) => Ok(x),
        }
    }
}

/// The year that a date marked `BC` has in astronomical numbering.
pub open spec fn bc_year(year: i32) -> int {
    -(year - 1)
}

/// What reading a date from the start of `s` gives: a date laid out
/// `[year]-[month]-[day]`, then, after white space, an optional era word
/// (`BC` or `AD` in any case, and the space before it are then taken too).
/// A `BC` date counts its year backward from year 1; when that date does
/// not exist the error is `OutOfRange`. The second part is the text left,
/// also when the error comes from the era.
pub open spec fn date_read(s: Seq<char>) -> (Result<DateValue, ConversionError>, Seq<char>) {
    match date_prefix(s, "[year]-[month]-[day]"@) {
        None => (Err(ConversionError::Unparsable), s),
        Some(None) => (Err(ConversionError::OutOfRange), s),
        Some(Some((d, v))) => {
            let attempt = trim_space(v);
            let w = letters_len(attempt) as int;
            let word = attempt.take(w);
            if eq_ignore_case(word, "bc"@) {
                if valid_date(bc_year(d.year), d.month as int, d.day as int) {
                    (
                        Ok(DateValue { year: bc_year(d.year) as i32, month: d.month, day: d.day }),
                        attempt.skip(w),
                    )
                } else {
                    (Err(ConversionError::OutOfRange), attempt.skip(w))
                }
            } else if eq_ignore_case(word, "ad"@) {
                (Ok(d), attempt.skip(w))
            } else {
                (Ok(d), v)
            }
        },
    }
}

/// Reads a date from the start of `input`, as `date_read` says.
pub fn extract_date(input: &mut &str) -> (r: Result<DateValue, ConversionError>)
    ensures
        (r, final(input)@) == date_read(old(input)@),
{
    let value: &str = *input;
    let d = match date_prefix_with(value, "[year]-[month]-[day]") {
        None => {
            return Err(ConversionError::Unparsable);
        },
        Some(None) => {
            return Err(ConversionError::OutOfRange);
        },
        Some(Some((d, rest))) => {
            let attempt = trim_start(rest);
            let n = attempt.unicode_len();
            let w = crate::as_value_interval::letters_count(attempt);
            let word = attempt.substring_char(0, w);
            if eq_ignore_ascii_case(word, "bc") {
                *input = attempt.substring_char(w, n);
                match calendar_date(-(d.year - 1), d.month, d.day) {
                    Some(bc) => bc,
                    None => {
                        return Err(ConversionError::OutOfRange);
                    },
                }
            } else if eq_ignore_ascii_case(word, "ad") {
                *input = attempt.substring_char(w, n);
                d
            } else {
                *input = rest;
                d
            }
        },
    };
    Ok(d)
}

/// What reading a time of day from the start of `s` gives: the first of
/// `[hour]:[minute]:[second].[subsecond]`, `[hour]:[minute]:[second]` and
/// `[hour]:[minute]` that matches.
pub open spec fn time_read(s: Seq<char>) -> Result<(TimeValue, Seq<char>), ConversionError> {
    first_layout(time_layouts().map_values(|f: Seq<char>| time_prefix(s, f)))
}

/// What reading a timestamp from the start of `s` gives: the first of its
/// six layouts (a `T` or a space between date and time, with seconds and a
/// fraction, with seconds, or with minutes only) that matches.
pub open spec fn timestamp_read(s: Seq<char>) -> Result<(TimestampValue, Seq<char>), ConversionError> {
    first_layout(timestamp_layouts().map_values(|f: Seq<char>| timestamp_prefix(s, f)))
}

/// Reads a time of day from the start of `input`, as `time_read` says; on
/// an error `input` is unchanged.
pub fn extract_time(input: &mut &str) -> (r: Result<TimeValue, ConversionError>)
    ensures
        match time_read(old(input)@) {
            Ok((t, rest)) => r == Ok::<TimeValue, ConversionError>(t) && final(input)@ == rest,
            Err(e) => r == Err::<TimeValue, ConversionError>(e) && final(input)@ == old(input)@,
        },
{
    let value: &str = *input;
    let layouts = [
        "[hour]:[minute]:[second].[subsecond]",
        "[hour]:[minute]:[second]",
        "[hour]:[minute]",
    ];
    let ghost reads = time_layouts().map_values(|f: Seq<char>| time_prefix(value@, f));
    proof {
        reveal_strlit("[hour]:[minute]:[second].[subsecond]");
        reveal_strlit("[hour]:[minute]:[second]");
        reveal_strlit("[hour]:[minute]");
        assert(layouts@.map_values(|f: &str| f@) =~= time_layouts());
    }
    assert(reads.skip(0) =~= reads);
    let mut i: usize = 0;
    while i < 3
        invariant
            i <= 3,
            layouts@.map_values(|f: &str| f@) == time_layouts(),
            reads == time_layouts().map_values(|f: Seq<char>| time_prefix(value@, f)),
            reads.len() == 3,
            first_layout(reads) == first_layout(reads.skip(i as int)),
            value@ == old(input)@,
            *input == value,
        decreases 3 - i,
    {
        assert(reads.skip(i as int)[0] == reads[i as int]);
        assert(reads.skip(i as int).drop_first() =~= reads.skip(i + 1));
        assert(layouts@.map_values(|f: &str| f@)[i as int] == layouts@[i as int]@);
        match time_prefix_with(value, layouts[i]) {
            None => {},
            Some(None) => {
                return Err(ConversionError::OutOfRange);
            },
            Some(Some((t, rest))) => {
                *input = rest;
                return Ok(t);
            },
        }
        i = i + 1;
    }
    assert(reads.skip(3) =~= Seq::<Option<Option<(TimeValue, Seq<char>)>>>::empty());
    Err(ConversionError::Unparsable)
}

/// Reads a timestamp from the start of `input`, as `timestamp_read` says;
/// on an error `input` is unchanged.
pub fn extract_timestamp(input: &mut &str) -> (r: Result<TimestampValue, ConversionError>)
    ensures
        match timestamp_read(old(input)@) {
            Ok((t, rest)) => r == Ok::<TimestampValue, ConversionError>(t) && final(input)@ == rest,
            Err(e) => r == Err::<TimestampValue, ConversionError>(e) && final(input)@ == old(input)@,
        },
{
    let value: &str = *input;
    let layouts = [
        "[year]-[month]-[day]T[hour]:[minute]:[second].[subsecond]",
        "[year]-[month]-[day]T[hour]:[minute]:[second]",
        "[year]-[month]-[day]T[hour]:[minute]",
        "[year]-[month]-[day] [hour]:[minute]:[second].[subsecond]",
        "[year]-[month]-[day] [hour]:[minute]:[second]",
        "[year]-[month]-[day] [hour]:[minute]",
    ];
    let ghost reads = timestamp_layouts().map_values(|f: Seq<char>| timestamp_prefix(value@, f));
    proof {
        reveal_strlit("[year]-[month]-[day]T[hour]:[minute]:[second].[subsecond]");
        reveal_strlit("[year]-[month]-[day]T[hour]:[minute]:[second]");
        reveal_strlit("[year]-[month]-[day]T[hour]:[minute]");
        reveal_strlit("[year]-[month]-[day] [hour]:[minute]:[second].[subsecond]");
        reveal_strlit("[year]-[month]-[day] [hour]:[minute]:[second]");
        reveal_strlit("[year]-[month]-[day] [hour]:[minute]");
        assert(layouts@.map_values(|f: &str| f@) =~= timestamp_layouts());
    }
    assert(reads.skip(0) =~= reads);
    let mut i: usize = 0;
    while i < 6
        invariant
            i <= 6,
            layouts@.map_values(|f: &str| f@) == timestamp_layouts(),
            reads == timestamp_layouts().map_values(|f: Seq<char>| timestamp_prefix(value@, f)),
            reads.len() == 6,
            first_layout(reads) == first_layout(reads.skip(i as int)),
            value@ == old(input)@,
            *input == value,
        decreases 6 - i,
    {
        assert(reads.skip(i as int)[0] == reads[i as int]);
        assert(reads.skip(i as int).drop_first() =~= reads.skip(i + 1));
        assert(layouts@.map_values(|f: &str| f@)[i as int] == layouts@[i as int]@);
        match timestamp_prefix_with(value, layouts[i]) {
            None => {},
            Some(None) => {
                return Err(ConversionError::OutOfRange);
            },
            Some(Some((t, rest))) => {
                *input = rest;
                return Ok(t);
            },
        }
        i = i + 1;
    }
    assert(reads.skip(6) =~= Seq::<Option<Option<(TimestampValue, Seq<char>)>>>::empty());
    Err(ConversionError::Unparsable)
}

/// Reading a date from the whole text.
pub open spec fn date_from_text(s: Seq<char>) -> Result<DateValue, ConversionError> {
    match date_read(s) {
        (Ok(d), rest) => if rest.len() == 0 {
            Ok(d)
        } else {
            Err(ConversionError::TrailingInput)
        },
        (Err(e), _) => Err(e),
    }
}

/// Reading a time of day from the whole text.
pub open spec fn time_from_text(s: Seq<char>) -> Result<TimeValue, ConversionError> {
    match time_read(s) {
        Ok((t, rest)) => if rest.len() == 0 {
            Ok(t)
        } else {
            Err(ConversionError::TrailingInput)
        },
        Err(e) => Err(e),
    }
}

/// Reading a timestamp from the whole text.
pub open spec fn timestamp_from_text(s: Seq<char>) -> Result<TimestampValue, ConversionError> {
    match timestamp_read(s) {
        Ok((t, rest)) => if rest.len() == 0 {
            Ok(t)
        } else {
            Err(ConversionError::TrailingInput)
        },
        Err(e) => Err(e),
    }
}

/// What converting a value to a date gives: a date as it is, text read.
pub open spec fn date_from_value(v: Value) -> Result<DateValue, ConversionError> {
    match v {
        Value::Date(Some(d)) => Ok(d),
        Value::Varchar(Some(s)) => date_from_text(s@),
        Value::Unknown(Some(s)) => date_from_text(s@),
        _ => Err(ConversionError::Incompatible),
    }
}

/// What converting a value to a time of day gives: a time as it is, text read.
pub open spec fn time_from_value(v: Value) -> Result<TimeValue, ConversionError> {
    match v {
        Value::Time(Some(t)) => Ok(t),
        Value::Varchar(Some(s)) => time_from_text(s@),
        Value::Unknown(Some(s)) => time_from_text(s@),
        _ => Err(ConversionError::Incompatible),
    }
}

/// What converting a value to a timestamp gives: a timestamp as it is,
/// text read.
pub open spec fn timestamp_from_value(v: Value) -> Result<TimestampValue, ConversionError> {
    match v {
        Value::Timestamp(Some(t)) => Ok(t),
        Value::Varchar(Some(s)) => timestamp_from_text(s@),
        Value::Unknown(Some(s)) => timestamp_from_text(s@),
        _ => Err(ConversionError::Incompatible),
    }
}

/// Reads a date from the whole text.
fn date_of_text(s: &str) -> (r: Result<DateValue, ConversionError>)
    ensures
        r == date_from_text(s@),
{
    let mut input = s;
    match extract_date(&mut input) {
        Ok(d) => if input.unicode_len() == 0 {
            Ok(d)
        } else {
            Err(ConversionError::TrailingInput)
        },
        Err(e) => Err(e),
    }
}

/// Reads a time of day from the whole text.
fn time_of_text(s: &str) -> (r: Result<TimeValue, ConversionError>)
    ensures
        r == time_from_text(s@),
{
    let mut input = s;
    match extract_time(&mut input) {
        Ok(t) => if input.unicode_len() == 0 {
            Ok(t)
        } else {
            Err(ConversionError::TrailingInput)
        },
        Err(e) => Err(e),
    }
}

/// Reads a timestamp from the whole text.
fn timestamp_of_text(s: &str) -> (r: Result<TimestampValue, ConversionError>)
    ensures
        r == timestamp_from_text(s@),
{
    let mut input = s;
    match extract_timestamp(&mut input) {
        Ok(t) => if input.unicode_len() == 0 {
            Ok(t)
        } else {
            Err(ConversionError::TrailingInput)
        },
        Err(e) => Err(e),
    }
}

impl AsValue for DateValue {
    open spec fn converts(value: Value, result: Result<DateValue, ConversionError>) -> bool {
        result == date_from_value(value)
    }

    open spec fn spec_empty() -> Value {
        Value::Date(None)
    }

    open spec fn valued(self, v: Value) -> bool {
        v == Value::Date(Some(self))
    }

    open spec fn readable(value: Value) -> bool {
        true
    }

    fn as_empty_value() -> (r: Value)
        ensures
            r == Value::Date(None),
    {
        Value::Date(None)
    }

    fn as_value(self) -> (r: Value)
        ensures
            r == Value::Date(Some(self)),
    {
        Value::Date(Some(self))
    }

    fn try_from_value(value: Value) -> (r: Result<DateValue, ConversionError>) {
        match value {
            Value::Date(Some(d)) => Ok(d),
            Value::Varchar(Some(s)) => date_of_text(s.as_str()),
            Value::Unknown(Some(s)) => date_of_text(s.as_str()),
            _ => Err(ConversionError::Incompatible),
        }
    }

    open spec fn extract_readable(s: Seq<char>) -> bool {
        true
    }

    open spec fn extracts(s: Seq<char>, result: Result<DateValue, ConversionError>, rest: Seq<char>) -> bool {
        (result, rest) == date_read(s)
    }

    fn extract(input: &mut &str) -> (r: Result<DateValue, ConversionError>) {
        extract_date(input)
    }
}

impl AsValue for TimeValue {
    open spec fn converts(value: Value, result: Result<TimeValue, ConversionError>) -> bool {
        result == time_from_value(value)
    }

    open spec fn spec_empty() -> Value {
        Value::Time(None)
    }

    open spec fn valued(self, v: Value) -> bool {
        v == Value::Time(Some(self))
    }

    open spec fn readable(value: Value) -> bool {
        true
    }

    fn as_empty_value() -> (r: Value)
        ensures
            r == Value::Time(None),
    {
        Value::Time(None)
    }

    fn as_value(self) -> (r: Value)
        ensures
            r == Value::Time(Some(self)),
    {
        Value::Time(Some(self))
    }

    fn try_from_value(value: Value) -> (r: Result<TimeValue, ConversionError>) {
        match value {
            Value::Time(Some(t)) => Ok(t),
            Value::Varchar(Some(s)) => time_of_text(s.as_str()),
            Value::Unknown(Some(s)) => time_of_text(s.as_str()),
            _ => Err(ConversionError::Incompatible),
        }
    }

    open spec fn extract_readable(s: Seq<char>) -> bool {
        true
    }

    open spec fn extracts(s: Seq<char>, result: Result<TimeValue, ConversionError>, rest: Seq<char>) -> bool {
        match time_read(s) {
            Ok((t, after)) => result == Ok::<TimeValue, ConversionError>(t) && rest == after,
            Err(e) => result == Err::<TimeValue, ConversionError>(e) && rest == s,
        }
    }

    fn extract(input: &mut &str) -> (r: Result<TimeValue, ConversionError>) {
        extract_time(input)
    }
}

impl AsValue for TimestampValue {
    open spec fn converts(value: Value, result: Result<TimestampValue, ConversionError>) -> bool {
        result == timestamp_from_value(value)
    }

    open spec fn spec_empty() -> Value {
        Value::Timestamp(None)
    }

    open spec fn valued(self, v: Value) -> bool {
        v == Value::Timestamp(Some(self))
    }

    open spec fn readable(value: Value) -> bool {
        true
    }

    fn as_empty_value() -> (r: Value)
        ensures
            r == Value::Timestamp(None),
    {
        Value::Timestamp(None)
    }

    fn as_value(self) -> (r: Value)
        ensures
            r == Value::Timestamp(Some(self)),
    {
        Value::Timestamp(Some(self))
    }

    fn try_from_value(value: Value) -> (r: Result<TimestampValue, ConversionError>) {
        match value {
            Value::Timestamp(Some(t)) => Ok(t),
            Value::Varchar(Some(s)) => timestamp_of_text(s.as_str()),
            Value::Unknown(Some(s)) => timestamp_of_text(s.as_str()),
            _ => Err(ConversionError::Incompatible),
        }
    }

    open spec fn extract_readable(s: Seq<char>) -> bool {
        true
    }

    open spec fn extracts(s: Seq<char>, result: Result<TimestampValue, ConversionError>, rest: Seq<char>) -> bool {
        match timestamp_read(s) {
            Ok((t, after)) => result == Ok::<TimestampValue, ConversionError>(t) && rest == after,
            Err(e) => result == Err::<TimestampValue, ConversionError>(e) && rest == s,
        }
    }

    fn extract(input: &mut &str) -> (r: Result<TimestampValue, ConversionError>) {
        extract_timestamp(input)
    }
}

/// Dates, times of day and timestamps convert back to themselves from the
/// values they give.
pub proof fn law_time_values_round_trip(d: DateValue, t: TimeValue, ts: TimestampValue, v: Value)
    ensures
        d.valued(v) ==> <DateValue as AsValue>::converts(v, Ok(d)),
        t.valued(v) ==> <TimeValue as AsValue>::converts(v, Ok(t)),
        ts.valued(v) ==> <TimestampValue as AsValue>::converts(v, Ok(ts)),
{
}

impl From<DateValue> for Value {
    fn from(value: DateValue) -> (r: Value) {
        Value::Date(Some(value))
    }
}

impl vstd::std_specs::convert::FromSpecImpl<DateValue> for Value {
    open spec fn obeys_from_spec() -> bool {
        true
    }

    open spec fn from_spec(v: DateValue) -> Value {
        Value::Date(Some(v))
    }
}

impl From<TimeValue> for Value {
    fn from(value: TimeValue) -> (r: Value) {
        Value::Time(Some(value))
    }
}

impl vstd::std_specs::convert::FromSpecImpl<TimeValue> for Value {
    open spec fn obeys_from_spec() -> bool {
        true
    }

    open spec fn from_spec(v: TimeValue) -> Value {
        Value::Time(Some(v))
    }
}

impl From<TimestampValue> for Value {
    fn from(value: TimestampValue) -> (r: Value) {
        Value::Timestamp(Some(value))
    }
}

impl vstd::std_specs::convert::FromSpecImpl<TimestampValue> for Value {
    open spec fn obeys_from_spec() -> bool {
        true
    }

    open spec fn from_spec(v: TimestampValue) -> Value {
        Value::Timestamp(Some(v))
    }
}

/// As [`date_prefix`], for a `time::OffsetDateTime`: the date and time as
/// written, with the offset.
pub uninterp spec fn offset_timestamp_prefix(input: Seq<char>, format: Seq<char>) -> Option<
    Option<(OffsetTimestamp, Seq<char>)>,
>;

/// `Parsed::parse_items` with the layout `format`, then the conversion to a
/// `time::OffsetDateTime` (see [`offset_timestamp_prefix`]).
#[verifier::external_body]
fn offset_timestamp_prefix_with<'a>(input: &'a str, format: &str) -> (r: Option<Option<(OffsetTimestamp, &'a str)>>)
    ensures
        match r {
            None => offset_timestamp_prefix(input@, format@) is None,
            Some(None) => offset_timestamp_prefix(input@, format@) == Some(None::<(OffsetTimestamp, Seq<char>)>),
            Some(Some((v, rest))) => offset_timestamp_prefix(input@, format@) == Some(Some((v, rest@))),
        },
{
    let mut parsed = Parsed::new();
    let remaining = parsed.parse_items(input.as_bytes(), &parse_borrowed::<2>(format).ok()?).ok()?;
    let Ok(v) = time::OffsetDateTime::try_from(parsed) else { return Some(None) };
    let date = DateValue { year: v.year(), month: v.month() as u8, day: v.day() };
    let time = TimeValue { hour: v.hour(), minute: v.minute(), second: v.second(), nanosecond: v.nanosecond() };
    let value = OffsetTimestamp { timestamp: TimestampValue { date, time }, offset_seconds: v.offset().whole_seconds() };
    let rest = input.get(input.len() - remaining.len()..)?;
    Some(Some((value, rest)))
}

/// The layouts a timestamp with an offset is read in from the start of a
/// text, in order.
pub open spec fn offset_prefix_layouts() -> Seq<Seq<char>> {
    seq![
        "[year]-[month]-[day]T[hour]:[minute]:[second].[subsecond][offset_hour sign:mandatory]:[offset_minute]"@,
        "[year]-[month]-[day]T[hour]:[minute]:[second].[subsecond][offset_hour sign:mandatory]"@,
        "[year]-[month]-[day]T[hour]:[minute]:[second][offset_hour sign:mandatory]:[offset_minute]"@,
        "[year]-[month]-[day]T[hour]:[minute]:[second][offset_hour sign:mandatory]"@,
        "[year]-[month]-[day]T[hour]:[minute][offset_hour sign:mandatory]:[offset_minute]"@,
        "[year]-[month]-[day]T[hour]:[minute][offset_hour sign:mandatory]"@,
        "[year]-[month]-[day] [hour]:[minute]:[second].[subsecond][offset_hour sign:mandatory]:[offset_minute]"@,
        "[year]-[month]-[day] [hour]:[minute]:[second].[subsecond][offset_hour sign:mandatory]"@,
        "[year]-[month]-[day] [hour]:[minute]:[second][offset_hour sign:mandatory]:[offset_minute]"@,
        "[year]-[month]-[day] [hour]:[minute]:[second][offset_hour sign:mandatory]"@,
        "[year]-[month]-[day] [hour]:[minute][offset_hour sign:mandatory]:[offset_minute]"@,
        "[year]-[month]-[day] [hour]:[minute][offset_hour sign:mandatory]"@,
    ]
}

/// What reading a timestamp with an offset from the start of `s` gives:
/// the first of its layouts that matches; then, from the text left (all of
/// it when no layout matched), a timestamp without offset is read too, and
/// taken at UTC when no layout with an offset matched. A layout that
/// matches with a date or time that does not exist ends the reading with
/// `OutOfRange` at once. The second part is the text left.
pub open spec fn offset_timestamp_read(s: Seq<char>) -> (Result<OffsetTimestamp, ConversionError>, Seq<char>) {
    let first = first_layout(offset_prefix_layouts().map_values(|f: Seq<char>| offset_timestamp_prefix(s, f)));
    if first == Err::<(OffsetTimestamp, Seq<char>), ConversionError>(ConversionError::OutOfRange) {
        (Err(ConversionError::OutOfRange), s)
    } else {
        let after_first = match first {
            Ok((_, rest)) => rest,
            Err(_) => s,
        };
        let second = timestamp_read(after_first);
        let after_second = match second {
            Ok((_, rest)) => rest,
            Err(_) => after_first,
        };
        let result = match first {
            Ok((t, _)) => Ok(t),
            Err(_) => match second {
                Ok((ts, _)) => Ok(OffsetTimestamp { timestamp: ts, offset_seconds: 0 }),
                Err(e) => Err(e),
            },
        };
        (result, after_second)
    }
}

/// The first of the offset layouts that matches the start of `value`.
fn first_offset_layout<'a>(value: &'a str) -> (r: Result<(OffsetTimestamp, &'a str), ConversionError>)
    ensures
        match first_layout(offset_prefix_layouts().map_values(|f: Seq<char>| offset_timestamp_prefix(value@, f))) {
            Ok((t, rest)) => r matches Ok((x, y)) && x == t && y@ == rest,
            Err(e) => r == Err::<(OffsetTimestamp, &'a str), ConversionError>(e),
        },
{
    let layouts = [
        "[year]-[month]-[day]T[hour]:[minute]:[second].[subsecond][offset_hour sign:mandatory]:[offset_minute]",
        "[year]-[month]-[day]T[hour]:[minute]:[second].[subsecond][offset_hour sign:mandatory]",
        "[year]-[month]-[day]T[hour]:[minute]:[second][offset_hour sign:mandatory]:[offset_minute]",
        "[year]-[month]-[day]T[hour]:[minute]:[second][offset_hour sign:mandatory]",
        "[year]-[month]-[day]T[hour]:[minute][offset_hour sign:mandatory]:[offset_minute]",
        "[year]-[month]-[day]T[hour]:[minute][offset_hour sign:mandatory]",
        "[year]-[month]-[day] [hour]:[minute]:[second].[subsecond][offset_hour sign:mandatory]:[offset_minute]",
        "[year]-[month]-[day] [hour]:[minute]:[second].[subsecond][offset_hour sign:mandatory]",
        "[year]-[month]-[day] [hour]:[minute]:[second][offset_hour sign:mandatory]:[offset_minute]",
        "[year]-[month]-[day] [hour]:[minute]:[second][offset_hour sign:mandatory]",
        "[year]-[month]-[day] [hour]:[minute][offset_hour sign:mandatory]:[offset_minute]",
        "[year]-[month]-[day] [hour]:[minute][offset_hour sign:mandatory]",
    ];
    let ghost reads = offset_prefix_layouts().map_values(|f: Seq<char>| offset_timestamp_prefix(value@, f));
    proof {
        reveal_strlit("[year]-[month]-[day]T[hour]:[minute]:[second].[subsecond][offset_hour sign:mandatory]:[offset_minute]");
        reveal_strlit("[year]-[month]-[day]T[hour]:[minute]:[second].[subsecond][offset_hour sign:mandatory]");
        reveal_strlit("[year]-[month]-[day]T[hour]:[minute]:[second][offset_hour sign:mandatory]:[offset_minute]");
        reveal_strlit("[year]-[month]-[day]T[hour]:[minute]:[second][offset_hour sign:mandatory]");
        reveal_strlit("[year]-[month]-[day]T[hour]:[minute][offset_hour sign:mandatory]:[offset_minute]");
        reveal_strlit("[year]-[month]-[day]T[hour]:[minute][offset_hour sign:mandatory]");
        reveal_strlit("[year]-[month]-[day] [hour]:[minute]:[second].[subsecond][offset_hour sign:mandatory]:[offset_minute]");
        reveal_strlit("[year]-[month]-[day] [hour]:[minute]:[second].[subsecond][offset_hour sign:mandatory]");
        reveal_strlit("[year]-[month]-[day] [hour]:[minute]:[second][offset_hour sign:mandatory]:[offset_minute]");
        reveal_strlit("[year]-[month]-[day] [hour]:[minute]:[second][offset_hour sign:mandatory]");
        reveal_strlit("[year]-[month]-[day] [hour]:[minute][offset_hour sign:mandatory]:[offset_minute]");
        reveal_strlit("[year]-[month]-[day] [hour]:[minute][offset_hour sign:mandatory]");
        assert(layouts@.map_values(|f: &str| f@) =~= offset_prefix_layouts());
    }
    assert(reads.skip(0) =~= reads);
    let mut i: usize = 0;
    while i < 12
        invariant
            i <= 12,
            layouts@.map_values(|f: &str| f@) == offset_prefix_layouts(),
            reads == offset_prefix_layouts().map_values(|f: Seq<char>| offset_timestamp_prefix(value@, f)),
            reads.len() == 12,
            first_layout(reads) == first_layout(reads.skip(i as int)),
        decreases 12 - i,
    {
        assert(reads.skip(i as int)[0] == reads[i as int]);
        assert(reads.skip(i as int).drop_first() =~= reads.skip(i + 1));
        assert(layouts@.map_values(|f: &str| f@)[i as int] == layouts@[i as int]@);
        match offset_timestamp_prefix_with(value, layouts[i]) {
            None => {},
            Some(None) => {
                return Err(ConversionError::OutOfRange);
            },
            Some(Some((t, rest))) => {
                return Ok((t, rest));
            },
        }
        i = i + 1;
    }
    assert(reads.skip(12) =~= Seq::<Option<Option<(OffsetTimestamp, Seq<char>)>>>::empty());
    Err(ConversionError::Unparsable)
}

/// Reads a timestamp with an offset from the start of `input`, as
/// `offset_timestamp_read` says.
pub fn extract_offset_timestamp(input: &mut &str) -> (r: Result<OffsetTimestamp, ConversionError>)
    ensures
        (r, final(input)@) == offset_timestamp_read(old(input)@),
{
    let value: &str = *input;
    let first = first_offset_layout(value);
    if let Err(ConversionError::OutOfRange) = first {
        return Err(ConversionError::OutOfRange);
    }
    let mut rest: &str = match &first {
        Ok((_, after)) => after,
        Err(_) => value,
    };
    let second = extract_timestamp(&mut rest);
    *input = rest;
    match first {
        Ok((t, _)) => Ok(t),
        Err(_) => match second {
            Ok(ts) => Ok(OffsetTimestamp { timestamp: ts, offset_seconds: 0 }),
            Err(e) => Err(e),
        },
    }
}

} // verus!
