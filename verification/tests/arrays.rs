use std::borrow::Cow;
use std::collections::VecDeque;
use std::rc::Rc;
use std::sync::Arc;
use tank_core::as_value::AsValue;
use tank_core::parse_int::ConversionError;
use tank_core::value::Value;

fn ints(xs: &[i32]) -> Vec<Value> {
    xs.iter().map(|x| Value::Int32(Some(*x))).collect()
}

#[test]
fn array_as_value() {
    let v = [1i32, 2, 3].as_value();
    assert_eq!(
        v,
        Value::Array(Some(ints(&[1, 2, 3])), Box::new(Value::Int32(None)), 3)
    );
    assert_eq!(
        <[i32; 2]>::as_empty_value(),
        Value::Array(None, Box::new(Value::Int32(None)), 2)
    );
}

#[test]
fn array_round_trip() {
    let v = [7i32, -8].as_value();
    let back: [i32; 2] = AsValue::try_from_value(v).unwrap();
    assert_eq!(back, [7, -8]);
}

#[test]
fn array_from_list() {
    let list = Value::List(Some(ints(&[4, 5, 6])), Box::new(Value::Int32(None)));
    let a: [i32; 3] = AsValue::try_from_value(list).unwrap();
    assert_eq!(a, [4, 5, 6]);
}

#[test]
fn array_wrong_length() {
    let list = Value::List(Some(ints(&[4, 5])), Box::new(Value::Int32(None)));
    assert_eq!(
        <[i32; 3]>::try_from_value(list),
        Err(ConversionError::Incompatible)
    );
    assert_eq!(
        <[i32; 3]>::try_from_value(Value::Int32(Some(1))),
        Err(ConversionError::Incompatible)
    );
}

#[test]
fn array_element_error() {
    let list = Value::List(
        Some(vec![Value::Int32(Some(1)), Value::Boolean(Some(true))]),
        Box::new(Value::Int32(None)),
    );
    assert!(<[i32; 2]>::try_from_value(list).is_err());
}

#[test]
fn array_from_text() {
    let a: [i32; 3] =
        AsValue::try_from_value(Value::Unknown(Some("{1, 2, 3}".into()))).unwrap();
    assert_eq!(a, [1, 2, 3]);
    let a: [i32; 2] = AsValue::try_from_value(Value::Unknown(Some("[ 10 ,20 ]".into()))).unwrap();
    assert_eq!(a, [10, 20]);
    let a: [i32; 2] = AsValue::try_from_value(Value::Unknown(Some("[1, 2,]".into()))).unwrap();
    assert_eq!(a, [1, 2]);
}

#[test]
fn array_text_errors() {
    assert_eq!(
        <[i32; 3]>::try_from_value(Value::Unknown(Some("[1, 2]".into()))),
        Err(ConversionError::Unparsable)
    );
    assert_eq!(
        <[i32; 2]>::try_from_value(Value::Unknown(Some("(1, 2)".into()))),
        Err(ConversionError::Unparsable)
    );
    assert_eq!(
        <[i32; 2]>::try_from_value(Value::Unknown(Some("[1 2]".into()))),
        Err(ConversionError::Unparsable)
    );
    assert_eq!(
        <[i32; 2]>::try_from_value(Value::Unknown(Some("[1, 2] x".into()))),
        Err(ConversionError::TrailingInput)
    );
    assert_eq!(
        <[i32; 2]>::try_from_value(Value::Unknown(Some("[1, 2".into()))),
        Err(ConversionError::Unparsable)
    );
}

#[test]
fn array_extract_leaves_rest() {
    let mut input = "{1, 2}  tail";
    let a = <[i32; 2]>::extract(&mut input).unwrap();
    assert_eq!(a, [1, 2]);
    assert_eq!(input, "tail");
    let mut input = "[1, 2, 3]";
    let before = input;
    assert!(<[i32; 2]>::extract(&mut input).is_err());
    assert_eq!(input, before);
}

#[test]
fn nested_array_from_text() {
    let a: [[i32; 2]; 2] =
        AsValue::try_from_value(Value::Unknown(Some("[[1, 2], [3, 4]]".into()))).unwrap();
    assert_eq!(a, [[1, 2], [3, 4]]);
}

#[test]
fn deque_round_trip() {
    let d: VecDeque<i32> = VecDeque::from(vec![3, 1, 2]);
    let v = d.clone().as_value();
    assert_eq!(v, Value::List(Some(ints(&[3, 1, 2])), Box::new(Value::Int32(None))));
    let back: VecDeque<i32> = AsValue::try_from_value(v).unwrap();
    assert_eq!(back, d);
    let empty: VecDeque<i32> =
        AsValue::try_from_value(Value::List(None, Box::new(Value::Int32(None)))).unwrap();
    assert!(empty.is_empty());
    let from_array: VecDeque<i32> =
        AsValue::try_from_value(Value::Array(Some(ints(&[9])), Box::new(Value::Int32(None)), 1))
            .unwrap();
    assert_eq!(from_array, VecDeque::from(vec![9]));
    assert_eq!(
        <VecDeque<i32>>::try_from_value(Value::Int32(Some(1))),
        Err(ConversionError::Incompatible)
    );
}

#[test]
fn cow_text() {
    let c: Cow<str> = Cow::Borrowed("hello");
    assert_eq!(c.as_value(), Value::Varchar(Some("hello".into())));
    let o: Cow<str> = Cow::Owned("world".to_string());
    assert_eq!(o.as_value(), Value::Varchar(Some("world".into())));
    let back: Cow<str> = AsValue::try_from_value(Value::Varchar(Some("x".into()))).unwrap();
    assert_eq!(back, "x");
    assert_eq!(<Cow<str>>::as_empty_value(), Value::Varchar(None));
    assert_eq!(
        <Cow<str>>::try_from_value(Value::Int32(Some(1))),
        Err(ConversionError::Incompatible)
    );
}

#[test]
fn shared_values() {
    let r = Rc::new(5i32);
    assert_eq!(r.clone().as_value(), Value::Int32(Some(5)));
    assert_eq!(r.as_value(), Value::Int32(Some(5)));
    let a = Arc::new("s".to_string());
    let other = a.clone();
    assert_eq!(a.as_value(), Value::Varchar(Some("s".into())));
    assert_eq!(other.as_value(), Value::Varchar(Some("s".into())));
    let back: Rc<i64> = AsValue::try_from_value(Value::Int64(Some(-4))).unwrap();
    assert_eq!(*back, -4);
    let back: Arc<bool> = AsValue::try_from_value(Value::Boolean(Some(true))).unwrap();
    assert!(*back);
    assert_eq!(<Arc<i32>>::as_empty_value(), Value::Int32(None));
    assert!(<Rc<i32>>::try_from_value(Value::Varchar(Some("x".into()))).is_err());
}
