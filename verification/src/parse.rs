//! Reading dates, times and timestamps from text, trying each accepted
//! layout in turn.
use vstd::prelude::*;
use crate::sql_writer::{DateValue, TimeValue};
use crate::value::TimestampValue;

verus! {

/// A date and time of day as written, with the UTC offset written after it.
#[derive(Clone, Copy, Debug, PartialEq, Eq, Structural)]
pub struct OffsetTimestamp {
    pub timestamp: TimestampValue,
    pub offset_seconds: i32,
}

/// Why a text could not be read.
#[derive(Clone, Copy, Debug, PartialEq, Eq, Structural)]
pub enum ParseError {
    /// None of the accepted layouts matches the text.
    NoLayoutMatches,
    /// Binary data cannot be read from text.
    Unsupported,
}

/// What `time::Date::parse` reads from the input with the format
/// description written as `format`.
pub uninterp spec fn date_parsed(input: Seq<char>, format: Seq<char>) -> Option<DateValue>;

/// What `time::Time::parse` reads from the input with the format
/// description written as `format`.
pub uninterp spec fn time_parsed(input: Seq<char>, format: Seq<char>) -> Option<TimeValue>;

/// What `time::PrimitiveDateTime::parse` reads from the input with the
/// format description written as `format`.
pub uninterp spec fn timestamp_parsed(input: Seq<char>, format: Seq<char>) -> Option<
    TimestampValue,
>;

/// What `time::OffsetDateTime::parse` reads from the input with the format
/// description written as `format`.
pub uninterp spec fn offset_timestamp_parsed(input: Seq<char>, format: Seq<char>) -> Option<
    OffsetTimestamp,
>;

/// `time::Date::parse` with the format description `format` (see
/// [`date_parsed`]); `None` when the input does not match it.
#[verifier::external_body]
fn parse_date_with(input: &str, format: &str) -> (r: Option<DateValue>)
    ensures
        r == date_parsed(input@, format@),
{
    let description = time::format_description::parse(format).ok()?;
    let d = time::Date::parse(input, &description).ok()?;
    Some(DateValue { year: d.year(), month: d.month() as u8, day: d.day() })
}

/// `time::Time::parse` with the format description `format` (see
/// [`time_parsed`]); `None` when the input does not match it.
#[verifier::external_body]
fn parse_time_with(input: &str, format: &str) -> (r: Option<TimeValue>)
    ensures
        r == time_parsed(input@, format@),
{
    let description = time::format_description::parse(format).ok()?;
    let t = time::Time::parse(input, &description).ok()?;
    Some(TimeValue { hour: t.hour(), minute: t.minute(), second: t.second(), nanosecond: t.nanosecond() })
}

/// `time::PrimitiveDateTime::parse` with the format description `format`
/// (see [`timestamp_parsed`]); `None` when the input does not match it.
#[verifier::external_body]
fn parse_timestamp_with(input: &str, format: &str) -> (r: Option<TimestampValue>)
    ensures
        r == timestamp_parsed(input@, format@),
{
    let description = time::format_description::parse(format).ok()?;
    let v = time::PrimitiveDateTime::parse(input, &description).ok()?;
    let (d, t) = (v.date(), v.time());
    Some(TimestampValue {
        date: DateValue { year: d.year(), month: d.month() as u8, day: d.day() },
        time: TimeValue { hour: t.hour(), minute: t.minute(), second: t.second(), nanosecond: t.nanosecond() },
    })
}

/// `time::OffsetDateTime::parse` with the format description `format` (see
/// [`offset_timestamp_parsed`]): the date and time as written and the
/// offset; `None` when the input does not match it.
#[verifier::external_body]
fn parse_offset_timestamp_with(input: &str, format: &str) -> (r: Option<OffsetTimestamp>)
    ensures
        r == offset_timestamp_parsed(input@, format@),
{
    let description = time::format_description::parse(format).ok()?;
    let v = time::OffsetDateTime::parse(input, &description).ok()?;
    let (d, t) = (v.date(), v.time());
    Some(OffsetTimestamp {
        timestamp: TimestampValue {
            date: DateValue { year: d.year(), month: d.month() as u8, day: d.day() },
            time: TimeValue { hour: t.hour(), minute: t.minute(), second: t.second(), nanosecond: t.nanosecond() },
        },
        offset_seconds: v.offset().whole_seconds(),
    })
}

/// The first result that is there, else the error.
pub open spec fn first_of<T>(results: Seq<Option<T>>) -> Result<T, ParseError>
    decreases results.len(),
{
    if results.len() == 0 {
        Err(ParseError::NoLayoutMatches)
    } else if results[0] is Some {
        Ok(results[0]->0)
    } else {
        first_of(results.drop_first())
    }
}

/// The layouts a time of day is read in, in order.
pub open spec fn time_layouts() -> Seq<Seq<char>> {
    seq![
        "[hour]:[minute]:[second].[subsecond]"@,
        "[hour]:[minute]:[second]"@,
        "[hour]:[minute]"@,
    ]
}

/// The layouts a timestamp is read in, in order.
pub open spec fn timestamp_layouts() -> Seq<Seq<char>> {
    seq![
        "[year]-[month]-[day]T[hour]:[minute]:[second].[subsecond]"@,
        "[year]-[month]-[day]T[hour]:[minute]:[second]"@,
        "[year]-[month]-[day]T[hour]:[minute]"@,
        "[year]-[month]-[day] [hour]:[minute]:[second].[subsecond]"@,
        "[year]-[month]-[day] [hour]:[minute]:[second]"@,
        "[year]-[month]-[day] [hour]:[minute]"@,
    ]
}

/// The layouts a timestamp with an offset is read in, in order.
pub open spec fn offset_timestamp_layouts() -> Seq<Seq<char>> {
    seq![
        "[year]-[month]-[day]T[hour]:[minute]:[second].[subsecond][offset_hour sign:mandatory]:[offset_minute]"@,
        "[year]-[month]-[day]T[hour]:[minute]:[second].[subsecond][offset_hour sign:mandatory]"@,
        "[year]-[month]-[day]T[hour]:[minute]:[second][offset_hour sign:mandatory]:[offset_minute]"@,
        "[year]-[month]-[day]T[hour]:[minute]:[second][offset_hour sign:mandatory]"@,
        "[year]-[month]-[day]T[hour]:[minute][offset_hour sign:mandatory]:[offset_minute]"@,
        "[year]-[month]-[day]T[hour]:[minute][offset_hour sign:mandatory]"@,
    ]
}

/// Values read from text.
pub trait Parse: Sized {
    fn parse(value: &str) -> Result<Self, ParseError>;
}

impl Parse for DateValue {
    /// A date written `[year]-[month]-[day]`.
    fn parse(value: &str) -> (r: Result<DateValue, ParseError>)
        ensures
            r == match date_parsed(value@, "[year]-[month]-[day]"@) {
                Some(d) => Ok(d),
                None => Err(ParseError::NoLayoutMatches),
            },
    {
        match parse_date_with(value, "[year]-[month]-[day]") {
            Some(d) => Ok(d),
            None => Err(ParseError::NoLayoutMatches),
        }
    }
}

impl Parse for TimeValue {
    /// A time of day in the first of its layouts that matches.
    fn parse(value: &str) -> (r: Result<TimeValue, ParseError>)
        ensures
            r == first_of(time_layouts().map_values(|f: Seq<char>| time_parsed(value@, f))),
    {
        let ghost results = time_layouts().map_values(|f: Seq<char>| time_parsed(value@, f));
        proof {
            reveal_with_fuel(first_of, 4);
        }
        if let Some(t) = parse_time_with(value, "[hour]:[minute]:[second].[subsecond]") {
            return Ok(t);
        }
        if let Some(t) = parse_time_with(value, "[hour]:[minute]:[second]") {
            assert(results.drop_first()[0] == results[1]);
            return Ok(t);
        }
        assert(results.drop_first().drop_first()[0] == results[2]);
        assert(results.drop_first().drop_first().drop_first().len() == 0);
        if let Some(t) = parse_time_with(value, "[hour]:[minute]") {
            return Ok(t);
        }
        Err(ParseError::NoLayoutMatches)
    }
}

impl Parse for TimestampValue {
    /// A timestamp in the first of its layouts that matches.
    fn parse(value: &str) -> (r: Result<TimestampValue, ParseError>)
        ensures
            r == first_of(
                timestamp_layouts().map_values(|f: Seq<char>| timestamp_parsed(value@, f)),
            ),
    {
        let ghost results = timestamp_layouts().map_values(
            |f: Seq<char>| timestamp_parsed(value@, f),
        );
        proof {
            reveal_with_fuel(first_of, 7);
            assert(results.drop_first()[0] == results[1]);
            assert(results.drop_first().drop_first()[0] == results[2]);
            assert(results.drop_first().drop_first().drop_first()[0] == results[3]);
            assert(results.drop_first().drop_first().drop_first().drop_first()[0] == results[4]);
            assert(results.drop_first().drop_first().drop_first().drop_first().drop_first()[0]
                == results[5]);
            assert(results.drop_first().drop_first().drop_first().drop_first().drop_first().drop_first().len() == 0);
        }
        if let Some(t) = parse_timestamp_with(value, "[year]-[month]-[day]T[hour]:[minute]:[second].[subsecond]") {
            return Ok(t);
        }
        if let Some(t) = parse_timestamp_with(value, "[year]-[month]-[day]T[hour]:[minute]:[second]") {
            return Ok(t);
        }
        if let Some(t) = parse_timestamp_with(value, "[year]-[month]-[day]T[hour]:[minute]") {
            return Ok(t);
        }
        if let Some(t) = parse_timestamp_with(value, "[year]-[month]-[day] [hour]:[minute]:[second].[subsecond]") {
            return Ok(t);
        }
        if let Some(t) = parse_timestamp_with(value, "[year]-[month]-[day] [hour]:[minute]:[second]") {
            return Ok(t);
        }
        if let Some(t) = parse_timestamp_with(value, "[year]-[month]-[day] [hour]:[minute]") {
            return Ok(t);
        }
        Err(ParseError::NoLayoutMatches)
    }
}

impl Parse for OffsetTimestamp {
    /// A timestamp with an offset in the first of its layouts that matches.
    fn parse(value: &str) -> (r: Result<OffsetTimestamp, ParseError>)
        ensures
            r == first_of(
                offset_timestamp_layouts().map_values(
                    |f: Seq<char>| offset_timestamp_parsed(value@, f),
                ),
            ),
    {
        let ghost results = offset_timestamp_layouts().map_values(
            |f: Seq<char>| offset_timestamp_parsed(value@, f),
        );
        proof {
            reveal_with_fuel(first_of, 7);
            assert(results.drop_first()[0] == results[1]);
            assert(results.drop_first().drop_first()[0] == results[2]);
            assert(results.drop_first().drop_first().drop_first()[0] == results[3]);
            assert(results.drop_first().drop_first().drop_first().drop_first()[0] == results[4]);
            assert(results.drop_first().drop_first().drop_first().drop_first().drop_first()[0]
                == results[5]);
            assert(results.drop_first().drop_first().drop_first().drop_first().drop_first().drop_first().len() == 0);
        }
        if let Some(t) = parse_offset_timestamp_with(value, "[year]-[month]-[day]T[hour]:[minute]:[second].[subsecond][offset_hour sign:mandatory]:[offset_minute]") {
            return Ok(t);
        }
        if let Some(t) = parse_offset_timestamp_with(value, "[year]-[month]-[day]T[hour]:[minute]:[second].[subsecond][offset_hour sign:mandatory]") {
            return Ok(t);
        }
        if let Some(t) = parse_offset_timestamp_with(value, "[year]-[month]-[day]T[hour]:[minute]:[second][offset_hour sign:mandatory]:[offset_minute]") {
            return Ok(t);
        }
        if let Some(t) = parse_offset_timestamp_with(value, "[year]-[month]-[day]T[hour]:[minute]:[second][offset_hour sign:mandatory]") {
            return Ok(t);
        }
        if let Some(t) = parse_offset_timestamp_with(value, "[year]-[month]-[day]T[hour]:[minute][offset_hour sign:mandatory]:[offset_minute]") {
            return Ok(t);
        }
        if let Some(t) = parse_offset_timestamp_with(value, "[year]-[month]-[day]T[hour]:[minute][offset_hour sign:mandatory]") {
            return Ok(t);
        }
        Err(ParseError::NoLayoutMatches)
    }
}

impl Parse for Vec<u8> {
    /// Binary data is never read from text.
    fn parse(value: &str) -> (r: Result<Vec<u8>, ParseError>)
        ensures
            r == Err::<Vec<u8>, ParseError>(ParseError::Unsupported),
    {
        Err(ParseError::Unsupported)
    }
}

} // verus!
