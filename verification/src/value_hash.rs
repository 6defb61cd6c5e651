//! Hashing values: a value's hash is made of a key that equal values share.
use vstd::prelude::*;
use vstd::string::StrSliceExecFns;
use crate::interval::{Interval, interval_key};
use crate::sql_writer::{DateValue, TimeValue};
use crate::value::{TimestampValue, Value, spec_value_eq, variant_index};

verus! {

/// The key of an optional part: `0` when absent, else `1` and the part's key.
pub open spec fn optional_key<T>(x: Option<T>, key: spec_fn(T) -> Seq<u128>) -> Seq<u128> {
    match x {
        None => seq![0u128],
        Some(v) => seq![1u128] + key(v),
    }
}

pub open spec fn date_key(d: DateValue) -> Seq<u128> {
    seq![d.year as u128, d.month as u128, d.day as u128]
}

pub open spec fn time_key(t: TimeValue) -> Seq<u128> {
    seq![t.hour as u128, t.minute as u128, t.second as u128, t.nanosecond as u128]
}

pub open spec fn timestamp_key(ts: TimestampValue) -> Seq<u128> {
    date_key(ts.date) + time_key(ts.time)
}

pub open spec fn interval_hash_key(i: Interval) -> Seq<u128> {
    let k = interval_key(i);
    seq![k.0 as u128, k.1 as u128, k.2 as u128]
}

/// What a value's hash is made of: its variant, then what `==` compares
/// exactly: the number, flag, text, bytes, date, time, interval (by its
/// length) or UUID it holds, a decimal's width and scale, an array's length.
/// Floats and decimal amounts (equal by value across encodings), and the
/// contents of arrays, lists and maps add nothing.
pub open spec fn value_key(v: Value) -> Seq<u128> {
    seq![variant_index(v) as u128] + match v {
        Value::Boolean(x) => optional_key(x, |b: bool| seq![if b { 1u128 } else { 0u128 }]),
        Value::Int8(x) => optional_key(x, |n: i8| seq![n as u128]),
        Value::Int16(x) => optional_key(x, |n: i16| seq![n as u128]),
        Value::Int32(x) => optional_key(x, |n: i32| seq![n as u128]),
        Value::Int64(x) => optional_key(x, |n: i64| seq![n as u128]),
        Value::Int128(x) => optional_key(x, |n: i128| seq![n as u128]),
        Value::UInt8(x) => optional_key(x, |n: u8| seq![n as u128]),
        Value::UInt16(x) => optional_key(x, |n: u16| seq![n as u128]),
        Value::UInt32(x) => optional_key(x, |n: u32| seq![n as u128]),
        Value::UInt64(x) => optional_key(x, |n: u64| seq![n as u128]),
        Value::UInt128(x) => optional_key(x, |n: u128| seq![n]),
        Value::Decimal(_, w, s) => seq![w as u128, s as u128],
        Value::Varchar(x) => optional_key(x, |t: String| t@.map_values(|c: char| c as u128)),
        Value::Blob(x) => optional_key(x, |b: Vec<u8>| b@.map_values(|y: u8| y as u128)),
        Value::Date(x) => optional_key(x, |d: DateValue| date_key(d)),
        Value::Time(x) => optional_key(x, |t: TimeValue| time_key(t)),
        Value::Timestamp(x) => optional_key(x, |t: TimestampValue| timestamp_key(t)),
        Value::TimestampWithTimezone(x) => optional_key(x, |t: TimestampValue| timestamp_key(t)),
        Value::Interval(x) => optional_key(x, |i: Interval| interval_hash_key(i)),
        Value::Uuid(x) => optional_key(x, |u: u128| seq![u]),
        Value::Array(_, _, len) => seq![len as u128],
        _ => Seq::empty(),
    }
}

/// Appends the key of an optional part that is a single number.
fn push_optional(out: &mut Vec<u128>, x: Option<u128>)
    ensures
        final(out)@ == old(out)@ + match x {
            None => seq![0u128],
            Some(n) => seq![1u128, n],
        },
{
    match x {
        None => out.push(0),
        Some(n) => {
            out.push(1);
            out.push(n);
        },
    }
}

fn push_date(out: &mut Vec<u128>, d: &DateValue)
    ensures
        final(out)@ == old(out)@ + date_key(*d),
{
    out.push(d.year as u128);
    out.push(d.month as u128);
    out.push(d.day as u128);
}

fn push_time(out: &mut Vec<u128>, t: &TimeValue)
    ensures
        final(out)@ == old(out)@ + time_key(*t),
{
    out.push(t.hour as u128);
    out.push(t.minute as u128);
    out.push(t.second as u128);
    out.push(t.nanosecond as u128);
}

fn push_timestamp(out: &mut Vec<u128>, ts: &Option<TimestampValue>)
    ensures
        final(out)@ == old(out)@ + optional_key(*ts, |t: TimestampValue| timestamp_key(t)),
{
    match ts {
        None => out.push(0),
        Some(t) => {
            out.push(1);
            push_date(out, &t.date);
            push_time(out, &t.time);
        },
    }
}

impl Value {
    /// The key the value's hash is made of (see [`value_key`]).
    pub fn hash_key(&self) -> (r: Vec<u128>)
        ensures
            r@ == value_key(*self),
    {
        let mut out: Vec<u128> = Vec::new();
        out.push(self.variant() as u128);
        match self {
            Value::Boolean(x) => push_optional(&mut out, match x {
                Some(b) => Some(if *b { 1 } else { 0 }),
                None => None,
            }),
            Value::Int8(x) => push_optional(&mut out, match x { Some(n) => Some(*n as u128), None => None }),
            Value::Int16(x) => push_optional(&mut out, match x { Some(n) => Some(*n as u128), None => None }),
            Value::Int32(x) => push_optional(&mut out, match x { Some(n) => Some(*n as u128), None => None }),
            Value::Int64(x) => push_optional(&mut out, match x { Some(n) => Some(*n as u128), None => None }),
            Value::Int128(x) => push_optional(&mut out, match x { Some(n) => Some(*n as u128), None => None }),
            Value::UInt8(x) => push_optional(&mut out, match x { Some(n) => Some(*n as u128), None => None }),
            Value::UInt16(x) => push_optional(&mut out, match x { Some(n) => Some(*n as u128), None => None }),
            Value::UInt32(x) => push_optional(&mut out, match x { Some(n) => Some(*n as u128), None => None }),
            Value::UInt64(x) => push_optional(&mut out, match x { Some(n) => Some(*n as u128), None => None }),
            Value::UInt128(x) => push_optional(&mut out, *x),
            Value::Decimal(_, w, s) => {
                out.push(*w as u128);
                out.push(*s as u128);
            },
            Value::Varchar(x) => match x {
                None => out.push(0),
                Some(t) => {
                    out.push(1);
                    let ghost start = out@;
                    let text = t.as_str();
                    let n = text.unicode_len();
                    let mut i: usize = 0;
                    while i < n
                        invariant
                            n == t@.len(),
                            text@ == t@,
                            i <= n,
                            out@ == start + t@.take(i as int).map_values(|c: char| c as u128),
                        decreases n - i,
                    {
                        let c = text.get_char(i);
                        out.push(c as u128);
                        assert(t@.take(i + 1).map_values(|c: char| c as u128) =~= t@.take(
                            i as int,
                        ).map_values(|c: char| c as u128).push(c as u128));
                        i = i + 1;
                    }
                    assert(t@.take(n as int) =~= t@);
                },
            },
            Value::Blob(x) => match x {
                None => out.push(0),
                Some(b) => {
                    out.push(1);
                    let ghost start = out@;
                    let mut i: usize = 0;
                    while i < b.len()
                        invariant
                            i <= b@.len(),
                            out@ == start + b@.take(i as int).map_values(|y: u8| y as u128),
                        decreases b@.len() - i,
                    {
                        out.push(b[i] as u128);
                        assert(b@.take(i + 1).map_values(|y: u8| y as u128) =~= b@.take(
                            i as int,
                        ).map_values(|y: u8| y as u128).push(b@[i as int] as u128));
                        i = i + 1;
                    }
                    assert(b@.take(b@.len() as int) =~= b@);
                },
            },
            Value::Date(x) => match x {
                None => out.push(0),
                Some(d) => {
                    out.push(1);
                    push_date(&mut out, d);
                },
            },
            Value::Time(x) => match x {
                None => out.push(0),
                Some(t) => {
                    out.push(1);
                    push_time(&mut out, t);
                },
            },
            Value::Timestamp(x) => push_timestamp(&mut out, x),
            Value::TimestampWithTimezone(x) => push_timestamp(&mut out, x),
            Value::Interval(x) => match x {
                None => out.push(0),
                Some(i) => {
                    out.push(1);
                    let k = i.hash_key();
                    out.push(k.0 as u128);
                    out.push(k.1 as u128);
                    out.push(k.2 as u128);
                },
            },
            Value::Uuid(x) => push_optional(&mut out, *x),
            Value::Array(_, _, len) => out.push(*len as u128),
            _ => {},
        }
        assert(out@ =~= value_key(*self));
        out
    }
}

/// Values that are equal give the same hash key.
pub proof fn law_equal_values_hash_alike(a: Value, b: Value)
    requires
        spec_value_eq(a, b),
    ensures
        value_key(a) == value_key(b),
{
    match (a, b) {
        (Value::Interval(Some(x)), Value::Interval(Some(y))) => {
            crate::interval::law_equal_intervals_hash_alike(x, y);
        },
        (Value::Varchar(Some(x)), Value::Varchar(Some(y))) => {
            assert(x@.map_values(|c: char| c as u128) =~= y@.map_values(|c: char| c as u128));
        },
        (Value::Blob(Some(x)), Value::Blob(Some(y))) => {
            assert(x@.map_values(|c: u8| c as u128) =~= y@.map_values(|c: u8| c as u128));
        },
        _ => {},
    }
}

/// `Hash::hash` on a vector of numbers: feeds the key to the hasher.
#[verifier::external_body]
pub(crate) fn write_key<H: core::hash::Hasher>(key: &Vec<u128>, state: &mut H) {
    core::hash::Hash::hash(key, state)
}

impl core::hash::Hash for Value {
    /// Hashes the value's key, so that equal values hash alike.
    fn hash<H: core::hash::Hasher>(&self, state: &mut H) {
        let key = self.hash_key();
        write_key(&key, state);
    }
}

} // verus!
