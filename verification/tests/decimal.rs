use tank_core::as_value::AsValue;
use tank_core::as_value_decimal::{extract_decimal, FixedDecimal};
use tank_core::parse_int::ConversionError;
use tank_core::value::{DecimalValue, Value};

fn unknown(s: &str) -> Value {
    Value::Unknown(Some(s.to_string()))
}

fn parts(d: DecimalValue) -> (i128, u32) {
    (d.mantissa(), d.scale())
}

fn read(s: &str) -> Result<(i128, u32), ConversionError> {
    <DecimalValue as AsValue>::try_from_value(unknown(s)).map(parts)
}

#[test]
fn decimal_text_is_read() {
    assert_eq!(read("12.345"), Ok((12345, 3)));
    assert_eq!(read("42"), Ok((42, 0)));
    assert_eq!(read("-7"), Ok((-7, 0)));
    assert_eq!(read("0.05"), Ok((5, 2)));
    assert_eq!(read("3. "), Ok((3, 0)));
    assert_eq!(read(""), Ok((0, 0)));
}

#[test]
fn decimal_fraction_after_minus_is_appended() {
    assert_eq!(read("-1.5"), Ok((-5, 1)));
    assert_eq!(read("-0.5"), Ok((5, 1)));
}

#[test]
fn decimal_errors() {
    assert_eq!(read("1.5x"), Err(ConversionError::TrailingInput));
    assert_eq!(read("abc"), Err(ConversionError::TrailingInput));
    assert_eq!(read("79228162514264337593543950336"), Err(ConversionError::OutOfRange));
    assert_eq!(read("-79228162514264337593543950336"), Err(ConversionError::OutOfRange));
    assert_eq!(read("7922816251426433759354395033.6"), Err(ConversionError::OutOfRange));
    assert_eq!(read("7922816251426433759354395033.5"), Ok((79228162514264337593543950335, 1)));
}

#[test]
fn decimal_from_other_values() {
    let d = <DecimalValue as AsValue>::try_from_value(Value::Int32(Some(-12))).unwrap();
    assert_eq!(parts(d), (-12, 0));
    let d = <DecimalValue as AsValue>::try_from_value(Value::UInt64(Some(u64::MAX))).unwrap();
    assert_eq!(parts(d), (-1, 0));
    assert_eq!(
        <DecimalValue as AsValue>::try_from_value(Value::Int128(Some(1))).map(parts),
        Err(ConversionError::Incompatible)
    );
    let d = DecimalValue::new(1234, 2).unwrap();
    assert_eq!(d.as_value(), Value::Decimal(Some(d), 0, 2));
    assert_eq!(<DecimalValue as AsValue>::try_from_value(d.as_value()).map(parts), Ok((1234, 2)));
    assert_eq!(<DecimalValue as AsValue>::as_empty_value(), Value::Decimal(None, 0, 0));
}

#[test]
fn decimal_extract_leaves_the_rest() {
    let mut input = "1.25   , next";
    let d = extract_decimal(&mut input).unwrap();
    assert_eq!(parts(d), (125, 2));
    assert_eq!(input, ", next");
    let mut input = "99999999999999999999999999999 x";
    assert_eq!(extract_decimal(&mut input).map(parts), Err(ConversionError::OutOfRange));
    assert_eq!(input, "99999999999999999999999999999 x");
}

#[test]
fn fixed_decimals_carry_their_width() {
    let d = FixedDecimal::<10, 2>(DecimalValue::new(12345, 2).unwrap());
    let v = d.as_value();
    assert_eq!(v, Value::Decimal(Some(DecimalValue::new(12345, 2).unwrap()), 10, 2));
    let back = <FixedDecimal<10, 2> as AsValue>::try_from_value(v).unwrap();
    assert_eq!(parts(back.0), (12345, 2));
    let read = <FixedDecimal<5, 1> as AsValue>::try_from_value(unknown("3.5")).unwrap();
    assert_eq!(parts(read.0), (35, 1));
}
