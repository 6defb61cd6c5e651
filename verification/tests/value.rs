use tank_core::as_value::AsValue;
use tank_core::parse_int::ConversionError;
use tank_core::value::{Float32Value, Float64Value, Value};

fn float32(v: f32, text: &str) -> Value {
    Value::Float32(Some(Float32Value { bits: v.to_bits(), text: text.into() }))
}

fn float64(v: f64, text: &str) -> Value {
    Value::Float64(Some(Float64Value { bits: v.to_bits(), text: text.into() }))
}

#[test]
fn value_none() {
    assert_eq!(Value::Null, Value::Null);
    assert_ne!(float32(1.0, "1"), Value::Null);
}

#[test]
fn value_bool() {
    let var = true;
    let val: Value = var.into();
    assert_eq!(val, Value::Boolean(Some(true)));
    assert_ne!(val, Value::Boolean(Some(false)));
    assert_ne!(val, Value::Boolean(None));
    assert_ne!(val, Value::Varchar(Some("true".into())));
    let var: bool = AsValue::try_from_value(val).unwrap();
    let val = var.as_value();
    let var: bool = AsValue::try_from_value(val).unwrap();
    assert_eq!(var, true);
    assert_eq!(bool::try_from_value((1 as i8).into()).unwrap(), true);
    assert_eq!(bool::try_from_value((8 as i16).into()).unwrap(), true);
    assert_eq!(bool::try_from_value((0 as i32).into()).unwrap(), false);
    assert_eq!(bool::try_from_value((0 as i64).into()).unwrap(), false);
    assert_eq!(bool::try_from_value((9 as i128).into()).unwrap(), true);
    assert_eq!(bool::try_from_value((0 as u8).into()).unwrap(), false);
    assert_eq!(bool::try_from_value((1 as u16).into()).unwrap(), true);
    assert_eq!(bool::try_from_value((1 as u32).into()).unwrap(), true);
    assert_eq!(bool::try_from_value((0 as u64).into()).unwrap(), false);
    assert_eq!(bool::try_from_value((2 as u128).into()).unwrap(), true);
    assert!(matches!(bool::try_from_value(float32(0.5, "0.5")), Err(..)));
}

#[test]
fn value_i8() {
    let var = 127 as i8;
    let val: Value = var.into();
    assert_eq!(val, Value::Int8(Some(127)));
    assert_ne!(val, Value::Int8(Some(126)));
    let var: i8 = AsValue::try_from_value(val).unwrap();
    let val = var.as_value();
    let var: i8 = AsValue::try_from_value(val).unwrap();
    assert_eq!(var, 127);
    assert_eq!(i8::try_from_value((99 as u8).into()).unwrap(), 99);
    assert!(matches!(i8::try_from_value(float64(0.1, "0.1")), Err(..)));
}

#[test]
fn value_i16() {
    let var = -32768 as i16;
    let val: Value = var.into();
    assert_eq!(val, Value::Int16(Some(-32768)));
    assert_ne!(val, Value::Int32(Some(-32768)));
    let var: i16 = AsValue::try_from_value(val).unwrap();
    let val = var.as_value();
    let var: i16 = AsValue::try_from_value(val).unwrap();
    assert_eq!(var, -32768 as i16);
    assert_eq!(i16::try_from_value((29 as i8).into()).unwrap(), 29);
    assert_eq!(i16::try_from_value((100 as u8).into()).unwrap(), 100);
    assert_eq!(i16::try_from_value((5000 as u16).into()).unwrap(), 5000);
}

#[test]
fn value_i32() {
    let var = -2147483648 as i32;
    let val: Value = var.into();
    assert_eq!(val, Value::Int32(Some(-2147483648)));
    assert_ne!(val, Value::Null);
    let var: i32 = AsValue::try_from_value(val).unwrap();
    let val = var.as_value();
    let var: i32 = AsValue::try_from_value(val).unwrap();
    assert_eq!(var, -2147483648 as i32);
    assert_eq!(i32::try_from_value((-31 as i8).into()).unwrap(), -31);
    assert_eq!(i32::try_from_value((-1 as i16).into()).unwrap(), -1);
    assert_eq!(i32::try_from_value((77 as u8).into()).unwrap(), 77);
    assert_eq!(i32::try_from_value((15 as u16).into()).unwrap(), 15);
    assert_eq!(i32::try_from_value((1001 as u32).into()).unwrap(), 1001);
}

#[test]
fn value_i64() {
    let var = 9223372036854775807 as i64;
    let val: Value = var.into();
    let var: i64 = AsValue::try_from_value(val).unwrap();
    let val = var.as_value();
    let var: i64 = AsValue::try_from_value(val).unwrap();
    assert_eq!(var, 9223372036854775807 as i64);
    assert_eq!(i64::try_from_value((-31 as i8).into()).unwrap(), -31);
    assert_eq!(i64::try_from_value((-1234 as i16).into()).unwrap(), -1234);
    assert_eq!(i64::try_from_value((-1 as i32).into()).unwrap(), -1);
    assert_eq!(i64::try_from_value((77 as u8).into()).unwrap(), 77);
    assert_eq!(i64::try_from_value((5555 as u16).into()).unwrap(), 5555);
    assert_eq!(i64::try_from_value((123456 as u32).into()).unwrap(), 123456);
    assert_eq!(
        i64::try_from_value((12345678901234 as u64).into()).unwrap(),
        12345678901234
    );
}

#[test]
fn value_i128() {
    let var = -123456789101112131415 as i128;
    let val: Value = var.into();
    let var: i128 = AsValue::try_from_value(val).unwrap();
    let val = var.as_value();
    let var: i128 = AsValue::try_from_value(val).unwrap();
    assert_eq!(var, -123456789101112131415 as i128);
    assert_eq!(i128::try_from_value((-31 as i8).into()).unwrap(), -31);
    assert_eq!(i128::try_from_value((-1234 as i16).into()).unwrap(), -1234);
    assert_eq!(i128::try_from_value((-1 as i32).into()).unwrap(), -1);
    assert_eq!(
        i128::try_from_value((-12345678901234 as i64).into()).unwrap(),
        -12345678901234
    );
    assert_eq!(i128::try_from_value((77 as u8).into()).unwrap(), 77);
    assert_eq!(i128::try_from_value((5555 as u16).into()).unwrap(), 5555);
    assert_eq!(
        i128::try_from_value((123456 as u32).into()).unwrap(),
        123456
    );
    assert_eq!(
        i128::try_from_value((12345678901234 as u64).into()).unwrap(),
        12345678901234
    );
    assert_eq!(
        i128::try_from_value((170141183460469231731687303715884105727 as u128).into()).unwrap(),
        170141183460469231731687303715884105727
    );
}

#[test]
fn value_u8() {
    let var = 255 as u8;
    let val: Value = var.into();
    let var: u8 = AsValue::try_from_value(val).unwrap();
    let val = var.as_value();
    let var: u8 = AsValue::try_from_value(val).unwrap();
    assert_eq!(var, 255);
}

#[test]
fn value_u16() {
    let var = 65535 as u16;
    let val: Value = var.into();
    let var: u16 = AsValue::try_from_value(val).unwrap();
    let val = var.as_value();
    let var: u16 = AsValue::try_from_value(val).unwrap();
    assert_eq!(var, 65535);
    assert_eq!(u16::try_from_value((123 as u8).into()).unwrap(), 123);
}

#[test]
fn value_u32() {
    let var = 4_000_000_000 as u32;
    let val: Value = var.into();
    let var: u32 = AsValue::try_from_value(val).unwrap();
    let val = var.as_value();
    let var: u32 = AsValue::try_from_value(val).unwrap();
    assert_eq!(var, 4_000_000_000);
    assert_eq!(u32::try_from_value((12 as u8).into()).unwrap(), 12);
    assert_eq!(u32::try_from_value((65535 as u16).into()).unwrap(), 65535);
}

#[test]
fn value_u64() {
    let var = 18_000_000_000_000_000_000 as u64;
    let val: Value = var.into();
    let var: u64 = AsValue::try_from_value(val).unwrap();
    let val = var.as_value();
    let var: u64 = AsValue::try_from_value(val).unwrap();
    assert_eq!(var, 18_000_000_000_000_000_000);
    assert_eq!(u64::try_from_value((77 as u8).into()).unwrap(), 77);
    assert_eq!(u64::try_from_value((1234 as u16).into()).unwrap(), 1234);
    assert_eq!(u64::try_from_value((123456 as u32).into()).unwrap(), 123456);
}

#[test]
fn value_u128() {
    let var = 340_282_366_920_938_463_463_374_607_431_768_211_455 as u128;
    let val: Value = var.into();
    let var: u128 = AsValue::try_from_value(val).unwrap();
    let val = var.as_value();
    let var: u128 = AsValue::try_from_value(val).unwrap();
    assert_eq!(var, 340_282_366_920_938_463_463_374_607_431_768_211_455);
    assert_eq!(u128::try_from_value((11 as u8).into()).unwrap(), 11);
    assert_eq!(u128::try_from_value((222 as u16).into()).unwrap(), 222);
    assert_eq!(
        u128::try_from_value((333_333 as u32).into()).unwrap(),
        333_333
    );
    assert_eq!(
        u128::try_from_value((444_444_444_444 as u64).into()).unwrap(),
        444_444_444_444
    );
}

#[test]
fn value_string() {
    let var = "Hello World!";
    let val: Value = var.into();
    assert_eq!(val, Value::Varchar(Some("Hello World!".into())));
    assert_ne!(val, Value::Varchar(Some("Hello World.".into())));
    let var: String = AsValue::try_from_value(val).unwrap();
    let val = var.as_value();
    let var: String = AsValue::try_from_value(val).unwrap();
    assert_eq!(var, "Hello World!");
}

#[test]
fn integers_read_from_unknown_text() {
    let unknown = |s: &str| Value::Unknown(Some(s.into()));
    assert_eq!(i32::try_from_value(unknown("-42")).unwrap(), -42);
    assert_eq!(u8::try_from_value(unknown("255")).unwrap(), 255);
    assert_eq!(
        u8::try_from_value(unknown("256")),
        Err(ConversionError::OutOfRange)
    );
    assert_eq!(
        i64::try_from_value(unknown("12ab")),
        Err(ConversionError::TrailingInput)
    );
    assert_eq!(
        i16::try_from_value(unknown("")),
        Err(ConversionError::EmptyInput)
    );
    assert_eq!(
        u32::try_from_value(unknown("abc")),
        Err(ConversionError::Unparsable)
    );
    assert_eq!(
        u64::try_from_value(unknown("-5")),
        Err(ConversionError::Unparsable)
    );
    assert_eq!(
        i128::try_from_value(unknown("999999999999999999999999999999999999999999")),
        Err(ConversionError::OutOfRange)
    );
}

#[test]
fn narrowing_conversions_check_the_range() {
    assert_eq!(
        i8::try_from_value(Value::Int16(Some(300))),
        Err(ConversionError::OutOfRange)
    );
    assert_eq!(i8::try_from_value(Value::Int16(Some(-100))).unwrap(), -100);
    assert_eq!(i8::try_from_value(Value::UInt8(Some(200))).unwrap(), -56);
    assert_eq!(
        u16::try_from_value(Value::Int32(Some(-1))),
        Err(ConversionError::OutOfRange)
    );
    assert_eq!(
        u8::try_from_value(Value::Varchar(Some("1".into()))),
        Err(ConversionError::Incompatible)
    );
}

#[test]
fn booleans_and_texts_read_from_unknown_text() {
    let unknown = |s: &str| Value::Unknown(Some(s.into()));
    assert_eq!(bool::try_from_value(unknown("TRUE")).unwrap(), true);
    assert_eq!(bool::try_from_value(unknown("f")).unwrap(), false);
    assert_eq!(
        bool::try_from_value(unknown("yes")),
        Err(ConversionError::Unparsable)
    );
    assert_eq!(
        String::try_from_value(unknown("'it''s'")).unwrap(),
        "it's"
    );
    assert_eq!(
        String::try_from_value(unknown("\"open")).unwrap(),
        "\"open"
    );
    assert_eq!(String::try_from_value(unknown("plain")).unwrap(), "plain");
    assert_eq!(
        String::try_from_value(unknown("'a'b")),
        Err(ConversionError::TrailingInput)
    );
    assert_eq!(char::try_from_value(unknown("x")).unwrap(), 'x');
    assert_eq!(
        char::try_from_value(Value::Varchar(Some("xy".into()))),
        Err(ConversionError::Incompatible)
    );
}

#[test]
fn vectors_convert_element_by_element() {
    let v = vec![1i32, 2, 3].as_value();
    assert_eq!(
        v,
        Value::List(
            Some(vec![Value::Int32(Some(1)), Value::Int32(Some(2)), Value::Int32(Some(3))]),
            Box::new(Value::Int32(None))
        )
    );
    assert_eq!(<Vec<i32> as AsValue>::try_from_value(v), Ok(vec![1, 2, 3]));
    let mixed = Value::List(
        Some(vec![Value::Int32(Some(1)), Value::Int64(Some(2))]),
        Box::new(Value::Int64(None)),
    );
    assert_eq!(<Vec<i64> as AsValue>::try_from_value(mixed), Ok(vec![1, 2]));
    let bad = Value::List(
        Some(vec![Value::Int32(Some(1)), Value::Varchar(Some("x".into())), Value::Int64(Some(1 << 40))]),
        Box::new(Value::Int32(None)),
    );
    assert_eq!(<Vec<i32> as AsValue>::try_from_value(bad), Err(ConversionError::Incompatible));
    let too_big = Value::Array(
        Some(vec![Value::Int64(Some(1)), Value::Int64(Some(1 << 40))]),
        Box::new(Value::Int64(None)),
        2,
    );
    assert_eq!(<Vec<i32> as AsValue>::try_from_value(too_big), Err(ConversionError::OutOfRange));
    assert_eq!(
        <Vec<u8> as AsValue>::try_from_value(Value::List(None, Box::new(Value::UInt8(None)))),
        Ok(vec![])
    );
    assert_eq!(<Vec<u8> as AsValue>::try_from_value(Value::Int32(Some(1))), Err(ConversionError::Incompatible));
    assert_eq!(
        <Vec<String> as AsValue>::as_empty_value(),
        Value::List(None, Box::new(Value::Varchar(None)))
    );
}

#[test]
fn extract_reads_a_prefix() {
    let mut input = "42 rest";
    assert_eq!(<i32 as AsValue>::extract(&mut input), Ok(42));
    assert_eq!(input, " rest");
    let mut input = "x";
    assert_eq!(<u8 as AsValue>::extract(&mut input), Err(ConversionError::Unparsable));
    assert_eq!(input, "x");
    let mut input = "'it''s' tail";
    assert_eq!(<String as AsValue>::extract(&mut input), Ok("it's".to_string()));
    assert_eq!(input, " tail");
    let mut input = "ab";
    assert_eq!(<char as AsValue>::extract(&mut input), Ok('a'));
    assert_eq!(input, "b");
    let mut input = "true,";
    assert_eq!(<Option<bool> as AsValue>::extract(&mut input), Ok(Some(true)));
    assert_eq!(input, ",");
    let mut input = "1";
    assert_eq!(<Vec<i32> as AsValue>::extract(&mut input), Err(ConversionError::Unparsable));
}
