use tank_core::as_value::AsValue;
use tank_core::as_value_time::{extract_date, extract_offset_timestamp, extract_time, extract_timestamp};
use tank_core::parse::OffsetTimestamp;
use tank_core::parse_int::ConversionError;
use tank_core::sql_writer::{DateValue, TimeValue};
use tank_core::value::{TimestampValue, Value};

fn date(year: i32, month: u8, day: u8) -> DateValue {
    DateValue { year, month, day }
}

fn time(hour: u8, minute: u8, second: u8, nanosecond: u32) -> TimeValue {
    TimeValue { hour, minute, second, nanosecond }
}

fn unknown(s: &str) -> Value {
    Value::Unknown(Some(s.to_string()))
}

#[test]
fn dates_are_read_with_their_era() {
    let mut input = "2024-03-05 rest";
    assert_eq!(extract_date(&mut input), Ok(date(2024, 3, 5)));
    assert_eq!(input, " rest");
    let mut input = "0044-03-15 BC";
    assert_eq!(extract_date(&mut input), Ok(date(-43, 3, 15)));
    assert_eq!(input, "");
    let mut input = "0001-01-01 bc, x";
    assert_eq!(extract_date(&mut input), Ok(date(0, 1, 1)));
    assert_eq!(input, ", x");
    let mut input = "1999-12-31 AD";
    assert_eq!(extract_date(&mut input), Ok(date(1999, 12, 31)));
    assert_eq!(input, "");
    let mut input = "2024-02-29 BC";
    assert_eq!(extract_date(&mut input), Err(ConversionError::OutOfRange));
    assert_eq!(input, "");
    let mut input = "2023-02-30";
    assert_eq!(extract_date(&mut input), Err(ConversionError::OutOfRange));
    assert_eq!(input, "2023-02-30");
    let mut input = "yesterday";
    assert_eq!(extract_date(&mut input), Err(ConversionError::Unparsable));
    assert_eq!(input, "yesterday");
}

#[test]
fn times_are_read_in_the_first_layout_that_matches() {
    let mut input = "12:34:56.789 x";
    assert_eq!(extract_time(&mut input), Ok(time(12, 34, 56, 789_000_000)));
    assert_eq!(input, " x");
    let mut input = "12:34:56";
    assert_eq!(extract_time(&mut input), Ok(time(12, 34, 56, 0)));
    let mut input = "07:05";
    assert_eq!(extract_time(&mut input), Ok(time(7, 5, 0, 0)));
    let mut input = "noon";
    assert_eq!(extract_time(&mut input), Err(ConversionError::Unparsable));
    assert_eq!(input, "noon");
}

#[test]
fn timestamps_are_read_in_each_layout() {
    let expected = TimestampValue { date: date(2024, 1, 2), time: time(3, 4, 5, 600_000_000) };
    let mut input = "2024-01-02T03:04:05.6";
    assert_eq!(extract_timestamp(&mut input), Ok(expected));
    let mut input = "2024-01-02 03:04:05.6";
    assert_eq!(extract_timestamp(&mut input), Ok(expected));
    let mut input = "2024-01-02 03:04";
    assert_eq!(
        extract_timestamp(&mut input),
        Ok(TimestampValue { date: date(2024, 1, 2), time: time(3, 4, 0, 0) })
    );
    let mut input = "2024-01-02";
    assert_eq!(extract_timestamp(&mut input), Err(ConversionError::Unparsable));
}

#[test]
fn time_values_convert() {
    let d = date(2020, 6, 1);
    assert_eq!(<DateValue as AsValue>::try_from_value(d.as_value()), Ok(d));
    assert_eq!(<DateValue as AsValue>::try_from_value(unknown("2020-06-01")), Ok(d));
    assert_eq!(
        <DateValue as AsValue>::try_from_value(Value::Varchar(Some("2020-06-01 x".into()))),
        Err(ConversionError::TrailingInput)
    );
    assert_eq!(
        <DateValue as AsValue>::try_from_value(Value::Int32(Some(1))),
        Err(ConversionError::Incompatible)
    );
    let t = time(1, 2, 3, 4);
    assert_eq!(<TimeValue as AsValue>::try_from_value(Value::Time(Some(t))), Ok(t));
    assert_eq!(<TimeValue as AsValue>::try_from_value(unknown("01:02")), Ok(time(1, 2, 0, 0)));
    let ts = TimestampValue { date: d, time: t };
    let v: Value = ts.into();
    assert_eq!(<TimestampValue as AsValue>::try_from_value(v), Ok(ts));
    assert_eq!(<TimestampValue as AsValue>::as_empty_value(), Value::Timestamp(None));
}

#[test]
fn offset_timestamps_fall_back_to_utc() {
    let ts = TimestampValue { date: date(2024, 1, 2), time: time(3, 4, 5, 0) };
    let mut input = "2024-01-02T03:04:05+02:00";
    assert_eq!(extract_offset_timestamp(&mut input), Ok(OffsetTimestamp { timestamp: ts, offset_seconds: 7200 }));
    assert_eq!(input, "");
    let mut input = "2024-01-02 03:04:05";
    assert_eq!(extract_offset_timestamp(&mut input), Ok(OffsetTimestamp { timestamp: ts, offset_seconds: 0 }));
    assert_eq!(input, "");
    let mut input = "2024-01-02T03:04:05-01:30 2024-01-02 03:04";
    assert_eq!(
        extract_offset_timestamp(&mut input),
        Ok(OffsetTimestamp { timestamp: ts, offset_seconds: -5400 })
    );
    assert_eq!(input, " 2024-01-02 03:04");
    let mut input = "garbage";
    assert_eq!(extract_offset_timestamp(&mut input), Err(ConversionError::Unparsable));
    assert_eq!(input, "garbage");
}
