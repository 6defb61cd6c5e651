use tank_core::as_value::AsValue;
use tank_core::as_value_interval::{extract_interval, trim_ascii_start, trim_start, unit_of_word};
use tank_core::parse_int::ConversionError;
use tank_core::value::Value;
use tank_core::{Interval, IntervalUnit};

fn unknown(s: &str) -> Value {
    Value::Unknown(Some(s.to_string()))
}

fn read(s: &str) -> Result<Interval, ConversionError> {
    <Interval as AsValue>::try_from_value(unknown(s))
}

fn parts(i: Interval) -> (i64, i64, i128) {
    (i.months, i.days, i.nanos)
}

#[test]
fn interval_unit_terms_are_read() {
    let i = read("1 year 2 mons 3 days").unwrap();
    assert_eq!(parts(i), (14, 3, 0));
    let i = read("2 Hours 30 minutes").unwrap();
    assert_eq!(parts(i), (0, 0, 9_000_000_000_000));
    let i = read("5 s").unwrap();
    assert_eq!(parts(i), (0, 0, 5_000_000_000));
    let i = read("7 micros 3 ns").unwrap();
    assert_eq!(parts(i), (0, 0, 7_003));
    let i = read("-1 d").unwrap();
    assert_eq!(parts(i), (0, -1, 0));
    let i = read("25 h").unwrap();
    assert_eq!(parts(i), (0, 1, 3_600_000_000_000));
}

#[test]
fn interval_clock_part_is_read() {
    let i = read("04:05:06").unwrap();
    assert_eq!(parts(i), (0, 0, (4 * 3600 + 5 * 60 + 6) * 1_000_000_000));
    let i = read("1 day 01:00").unwrap();
    assert_eq!(parts(i), (0, 1, 3_600_000_000_000));
    let i = read("00:00:01.5").unwrap();
    assert_eq!(parts(i), (0, 0, 1_500_000_000));
    let i = read("00:00:00.000123").unwrap();
    assert_eq!(parts(i), (0, 0, 123_000));
    let i = read("00:00:00.000000007").unwrap();
    assert_eq!(parts(i), (0, 0, 7));
    let i = read("3").unwrap();
    assert_eq!(parts(i), (0, 0, 3 * 3_600_000_000_000));
}

#[test]
fn interval_negative_clock_is_subtracted() {
    let i = read("-02:00").unwrap();
    assert_eq!(parts(i), (0, 0, 7_200_000_000_000));
    let i = read("1 day -24:00:00").unwrap();
    assert_eq!(parts(i), (0, 0, 0));
}

#[test]
fn interval_quoted_text_is_read() {
    let i = read("'1 mon'").unwrap();
    assert_eq!(parts(i), (1, 0, 0));
    let i = read("\"2 days 00:00:01\"").unwrap();
    assert_eq!(parts(i), (0, 2, 1_000_000_000));
    assert_eq!(read("'1 mon"), Err(ConversionError::Unparsable));
    assert_eq!(read("'1 mon\""), Err(ConversionError::Unparsable));
}

#[test]
fn interval_errors() {
    assert_eq!(read("1 fortnight"), Err(ConversionError::Unparsable));
    assert_eq!(read("00:"), Err(ConversionError::Unparsable));
    assert_eq!(read("00:00:00."), Err(ConversionError::Unparsable));
    assert_eq!(read("00:00:00.0123456789"), Err(ConversionError::Unparsable));
    assert_eq!(read("1 day x"), Err(ConversionError::TrailingInput));
    assert_eq!(read(""), Ok(Interval::zero()));
    assert_eq!(
        <Interval as AsValue>::try_from_value(Value::Int32(Some(1))),
        Err(ConversionError::Incompatible)
    );
    let direct = Interval::from_days(4);
    assert_eq!(<Interval as AsValue>::try_from_value(Value::Interval(Some(direct))), Ok(direct));
}

#[test]
fn interval_extract_leaves_the_rest() {
    let mut input = "'3 days'   tail";
    let i = extract_interval(&mut input).unwrap();
    assert_eq!(parts(i), (0, 3, 0));
    assert_eq!(input, "tail");
    let mut input = "2 years, 1 day";
    let i = extract_interval(&mut input).unwrap();
    assert_eq!(parts(i), (24, 0, 0));
    assert_eq!(input, ", 1 day");
    let mut input = "1 lightyear";
    assert_eq!(extract_interval(&mut input), Err(ConversionError::Unparsable));
    assert_eq!(input, "1 lightyear");
}

#[test]
fn interval_round_trips_through_value() {
    let i = Interval::new(3, 4, 5);
    let v: Value = i.into();
    assert_eq!(v, Value::Interval(Some(i)));
    assert_eq!(<Interval as AsValue>::try_from_value(i.as_value()), Ok(i));
    assert_eq!(<Interval as AsValue>::as_empty_value(), Value::Interval(None));
}

#[test]
fn interval_words_and_space() {
    assert_eq!(unit_of_word("YEARS"), Some(IntervalUnit::Year));
    assert_eq!(unit_of_word("Mon"), Some(IntervalUnit::Month));
    assert_eq!(unit_of_word("mo"), None);
    assert_eq!(unit_of_word("NS"), Some(IntervalUnit::Nanosecond));
    assert_eq!(unit_of_word("microseconds"), Some(IntervalUnit::Microsecond));
    assert_eq!(trim_start("\u{a0} \tx "), "x ");
    assert_eq!(trim_ascii_start("\u{a0}x"), "\u{a0}x");
    assert_eq!(trim_ascii_start(" \r\nx"), "x");
    assert_eq!(Interval::from_hours(-25), Interval::new(0, -1, -3_600_000_000_000));
}
