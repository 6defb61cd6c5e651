use tank_core::decode_type::{
    decode_type, matches_path, try_decode_type, GenericArgument, PathArguments, PathSegment,
    RustType, TypePath,
};
use tank_core::expression::{JoinType, Operand};
use tank_core::util::{consume_while, extract_number, separated_by};
use tank_core::value::{Float64Value, Value};

fn seg(ident: &str, args: Option<Vec<GenericArgument>>) -> PathSegment {
    PathSegment {
        ident: ident.into(),
        arguments: match args {
            Some(a) => PathArguments::AngleBracketed(a),
            None => PathArguments::Absent,
        },
    }
}

fn path(segments: Vec<PathSegment>) -> RustType {
    RustType::Path(TypePath { leading_colon: false, segments })
}

fn simple(ident: &str) -> RustType {
    path(vec![seg(ident, None)])
}

fn generic(ident: &str, args: Vec<RustType>) -> RustType {
    path(vec![seg(ident, Some(args.into_iter().map(GenericArgument::Type).collect()))])
}

#[test]
fn primitives_and_known_types() {
    let (d, check) = decode_type(&simple("i32"));
    assert_eq!(d.value, Value::Int32(None));
    assert!(!d.nullable && !d.passive && check.is_none());
    assert_eq!(decode_type(&simple("String")).0.value, Value::Varchar(None));
    assert_eq!(decode_type(&simple("Uuid")).0.value, Value::Uuid(None));
    assert_eq!(decode_type(&simple("Duration")).0.value, Value::Interval(None));
    let full = path(vec![seg("std", None), seg("string", None), seg("String", None)]);
    assert_eq!(decode_type(&full).0.value, Value::Varchar(None));
    let wrong = path(vec![seg("foo", None), seg("String", None)]);
    assert!(try_decode_type(&wrong).is_none());
    assert!(try_decode_type(&simple("Foo")).is_none());
}

#[test]
fn wrappers_lists_and_maps() {
    let d = decode_type(&generic("Option", vec![simple("String")])).0;
    assert_eq!(d.value, Value::Varchar(None));
    assert!(d.nullable && !d.passive);

    let (d, check) = decode_type(&generic("Option", vec![generic("Passive", vec![simple("i64")])]));
    assert_eq!(d.value, Value::Int64(None));
    assert!(d.nullable && d.passive);
    assert_eq!(check.as_deref(), Some("*"));

    let (d, check) = decode_type(&generic("Passive", vec![generic("Option", vec![simple("u8")])]));
    assert_eq!(d.value, Value::UInt8(None));
    assert!(d.nullable && d.passive);
    assert_eq!(check.as_deref(), Some(""));

    let d = decode_type(&generic("Vec", vec![simple("u8")])).0;
    assert_eq!(d.value, Value::List(None, Box::new(Value::UInt8(None))));

    let d = decode_type(&generic("HashMap", vec![simple("String"), simple("i32")])).0;
    assert_eq!(
        d.value,
        Value::Dict(None, Box::new(Value::Varchar(None)), Box::new(Value::Int32(None)))
    );

    let cow = path(vec![seg(
        "Cow",
        Some(vec![GenericArgument::Lifetime, GenericArgument::Type(simple("str"))]),
    )]);
    assert_eq!(decode_type(&cow).0.value, Value::Varchar(None));

    assert!(try_decode_type(&simple("Option")).is_none());
    assert!(try_decode_type(&generic("HashMap", vec![simple("String")])).is_none());
}

#[test]
fn arrays_slices_and_fixed_decimals() {
    let bytes = RustType::Slice(Box::new(simple("u8")));
    assert_eq!(decode_type(&bytes).0.value, Value::Blob(None));
    let ints = RustType::Slice(Box::new(simple("i32")));
    assert_eq!(
        decode_type(&ints).0.value,
        Value::List(None, Box::new(Value::Int32(None)))
    );
    let array = RustType::Array(Box::new(simple("i32")), Some("4".into()));
    assert_eq!(
        decode_type(&array).0.value,
        Value::Array(None, Box::new(Value::Int32(None)), 4)
    );
    let huge = RustType::Array(Box::new(simple("i32")), Some("99999999999".into()));
    assert!(try_decode_type(&huge).is_none());
    let fixed = path(vec![seg(
        "FixedDecimal",
        Some(vec![
            GenericArgument::Const(Some("10".into())),
            GenericArgument::Const(Some("2".into())),
        ]),
    )]);
    assert_eq!(decode_type(&fixed).0.value, Value::Decimal(None, 10, 2));
    let bad = path(vec![seg(
        "FixedDecimal",
        Some(vec![GenericArgument::Const(Some("300".into()))]),
    )]);
    assert!(try_decode_type(&bad).is_none());
    assert!(try_decode_type(&RustType::Other).is_none());
}

#[test]
fn path_matching() {
    let p = TypePath {
        leading_colon: false,
        segments: vec![seg("collections", None), seg("HashMap", None)],
    };
    assert!(matches_path(&p, &["std", "collections", "HashMap"]));
    assert!(!matches_path(&p, &["std", "collections", "BTreeMap"]));
    assert!(matches_path(&p, &[]));
}

#[test]
fn joining_and_scanning_text() {
    let mut out = String::from(">");
    separated_by(&mut out, &vec!["a".into(), "".into(), "b".into(), "c".into()], ", ");
    assert_eq!(out, ">a, b, c");

    let mut input = "abc123";
    let word = consume_while(&mut input, |c: char| c.is_ascii_alphabetic());
    assert_eq!(word, "abc");
    assert_eq!(input, "123");

    let mut input = "-12x";
    assert_eq!(extract_number::<true>(&mut input), "-12");
    assert_eq!(input, "x");
    let mut input = "-12";
    assert_eq!(extract_number::<false>(&mut input), "");
    assert_eq!(input, "-12");
}

fn tokens(words: &[&str]) -> Vec<String> {
    words.iter().map(|w| w.to_string()).collect()
}

#[test]
fn join_keywords() {
    assert_eq!(JoinType::parse(&tokens(&["JOIN", "b"])).map(|v| v.1), Some(1));
    assert!(matches!(
        JoinType::parse(&tokens(&["LEFT", "OUTER", "JOIN", "b"])),
        Some((JoinType::Left, 3))
    ));
    assert!(matches!(
        JoinType::parse(&tokens(&["CROSS", "b"])),
        Some((JoinType::Cross, 1))
    ));
    assert!(matches!(
        JoinType::parse(&tokens(&["FULL", "OUTER", "JOIN"])),
        Some((JoinType::Outer, 3))
    ));
    assert!(JoinType::parse(&tokens(&["FULL", "JOIN"])).is_none());
    assert!(JoinType::parse(&tokens(&[])).is_none());
}

#[test]
fn operands_compare_like_literals() {
    let nan = Float64Value { bits: f64::NAN.to_bits(), text: "NaN".into() };
    let nan2 = Float64Value { bits: f64::NAN.to_bits(), text: "NaN".into() };
    assert!(Operand::LitFloat(nan) == Operand::LitFloat(nan2));
    let zero = Float64Value { bits: 0.0f64.to_bits(), text: "0".into() };
    let minus_zero = Float64Value { bits: (-0.0f64).to_bits(), text: "-0".into() };
    assert!(Operand::LitFloat(zero) == Operand::LitFloat(minus_zero));
    assert!(Operand::LitInt(3) == Operand::LitInt(3));
    assert!(Operand::LitInt(3) != Operand::LitInt(4));
    assert!(Operand::LitStr("a".into()) == Operand::LitStr("a".into()));
    assert!(Operand::LitIdent("a".into()) != Operand::LitStr("a".into()));
    assert!(Operand::Null != Operand::Null);
    assert!(Operand::LitArray(vec![Operand::LitInt(1), Operand::LitBool(true)])
        == Operand::LitArray(vec![Operand::LitInt(1), Operand::LitBool(true)]));
    assert!(Operand::LitArray(vec![Operand::LitInt(1)]) != Operand::LitArray(vec![]));
    assert!(Operand::Type(Value::Int32(None)) == Operand::Type(Value::Int32(Some(5))));
    assert!(Operand::Type(Value::Int32(None)) != Operand::Type(Value::Int64(None)));
}
