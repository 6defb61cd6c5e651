use tank_core::metadata::ColumnRef;
use tank_core::statement::{sql, TransitionSelect};
use tank_core::value::Value;

fn dict(entries: Vec<(Value, Value)>) -> Value {
    Value::Dict(Some(entries), Box::new(Value::Int32(None)), Box::new(Value::Varchar(None)))
}

#[test]
fn maps_equal_by_entries_in_any_order() {
    let a = dict(vec![
        (Value::Int32(Some(1)), Value::Varchar(Some("a".into()))),
        (Value::Int32(Some(2)), Value::Varchar(Some("b".into()))),
    ]);
    let b = dict(vec![
        (Value::Int32(Some(2)), Value::Varchar(Some("b".into()))),
        (Value::Int32(Some(1)), Value::Varchar(Some("a".into()))),
    ]);
    let c = dict(vec![
        (Value::Int32(Some(1)), Value::Varchar(Some("a".into()))),
        (Value::Int32(Some(2)), Value::Varchar(Some("z".into()))),
    ]);
    assert_eq!(a, a);
    assert_eq!(a, b);
    assert_eq!(b, a);
    assert_ne!(a, c);
    assert_ne!(a, dict(vec![]));
    assert_eq!(dict(vec![]), dict(vec![]));
}

#[test]
fn every_value_equals_itself() {
    let values = vec![
        Value::Char(Some('x')),
        Value::Unknown(Some("1, 2".into())),
        Value::Struct(Some(vec![("f".to_string(), Value::Int8(Some(3)))])),
        Value::List(Some(vec![Value::Int16(Some(4))]), Box::new(Value::Int16(None))),
    ];
    for v in &values {
        assert_eq!(v, v);
    }
    assert_ne!(Value::Char(Some('x')), Value::Char(Some('y')));
    assert_ne!(
        Value::Struct(Some(vec![("f".to_string(), Value::Int8(Some(3)))])),
        Value::Struct(Some(vec![("g".to_string(), Value::Int8(Some(3)))]))
    );
}

#[test]
fn statement_derefs_to_its_last_fragment() {
    let columns = vec![ColumnRef { name: "a".into() }, ColumnRef { name: "b c".into() }];
    let statement = sql().select(columns);
    let names: Vec<String> = statement.get_columns().iter().map(|c| c.name.clone()).collect();
    assert_eq!(names, vec!["a".to_string(), "b c".to_string()]);
}
