use std::collections::hash_map::DefaultHasher;
use std::collections::HashSet;
use std::hash::{Hash, Hasher};
use tank_core::value::Value;
use tank_core::Interval;

fn hash_of<T: Hash>(x: &T) -> u64 {
    let mut h = DefaultHasher::new();
    x.hash(&mut h);
    h.finish()
}

#[test]
fn equal_intervals_hash_alike() {
    let a = Interval { months: 1, days: 1, nanos: -1 };
    let b = Interval { months: 1, days: 0, nanos: Interval::NANOS_IN_DAY - 1 };
    assert_eq!(a, b);
    assert_eq!(hash_of(&a), hash_of(&b));
    assert_eq!(a.hash_key(), b.hash_key());
    assert_eq!(a.hash_key(), (1, 0, Interval::NANOS_IN_DAY - 1));
    assert_eq!(Interval::from_nanos(-1).hash_key(), (0, -1, Interval::NANOS_IN_DAY - 1));
}

#[test]
fn equal_values_hash_alike() {
    let a = Value::Interval(Some(Interval::from_days(1)));
    let b = Value::Interval(Some(Interval { months: 0, days: 0, nanos: Interval::NANOS_IN_DAY }));
    assert_eq!(a, b);
    assert_eq!(hash_of(&a), hash_of(&b));
    let s1 = Value::Varchar(Some("abc".into()));
    let s2 = Value::Varchar(Some("abc".into()));
    assert_eq!(hash_of(&s1), hash_of(&s2));
    assert_eq!(s1.hash_key(), vec![16, 1, 'a' as u128, 'b' as u128, 'c' as u128]);
    assert_eq!(Value::Int32(Some(-1)).hash_key(), vec![4, 1, u128::MAX]);
    assert_eq!(Value::Int32(None).hash_key(), vec![4, 0]);
    let mut set = HashSet::new();
    set.insert(Value::Int64(Some(5)));
    assert!(set.contains(&Value::Int64(Some(5))));
    assert!(!set.contains(&Value::Int64(Some(6))));
}
