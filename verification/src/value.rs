//! Typed SQL values, and value prototypes (values with no content) that
//! describe column types.
use vstd::prelude::*;
use crate::interval::Interval;
use crate::sql_writer::{DateValue, TimeValue};

verus! {

/// A decimal number `mantissa * 10^-scale`, within the range of
/// `rust_decimal::Decimal`: the mantissa fits in 96 bits, the scale is at most 28.
#[derive(Clone, Copy, Debug)]
pub struct DecimalValue {
    mantissa: i128,
    scale: u32,
}

/// Largest magnitude of a decimal mantissa (`2^96 - 1`).
pub open spec fn max_decimal_mantissa() -> int {
    79_228_162_514_264_337_593_543_950_335
}

impl DecimalValue {
    #[verifier::type_invariant]
    spec fn in_range(self) -> bool {
        -max_decimal_mantissa() <= self.mantissa <= max_decimal_mantissa() && self.scale <= 28
    }

    pub closed spec fn spec_mantissa(self) -> i128 {
        self.mantissa
    }

    pub closed spec fn spec_scale(self) -> u32 {
        self.scale
    }

    /// The decimal `mantissa * 10^-scale`, when it is in range.
    pub fn new(mantissa: i128, scale: u32) -> (r: Option<Self>)
        ensures
            r is Some <==> (-max_decimal_mantissa() <= mantissa <= max_decimal_mantissa() && scale
                <= 28),
            r matches Some(d) ==> d.spec_mantissa() == mantissa && d.spec_scale() == scale,
    {
        if -79_228_162_514_264_337_593_543_950_335i128 <= mantissa
            && mantissa <= 79_228_162_514_264_337_593_543_950_335i128 && scale <= 28 {
            Some(DecimalValue { mantissa, scale })
        } else {
            None
        }
    }

    /// The mantissa.
    pub fn mantissa(&self) -> (r: i128)
        ensures
            r == self.spec_mantissa(),
            -max_decimal_mantissa() <= r <= max_decimal_mantissa(),
    {
        proof {
            use_type_invariant(self);
        }
        self.mantissa
    }

    /// The scale: how many digits follow the decimal point.
    pub fn scale(&self) -> (r: u32)
        ensures
            r == self.spec_scale(),
            r <= 28,
    {
        proof {
            use_type_invariant(self);
        }
        self.scale
    }
}

/// A 32-bit float as the bits of its IEEE-754 encoding, together with its
/// shortest round-trip decimal text (used when it is finite).
#[derive(Clone, Debug)]
pub struct Float32Value {
    pub bits: u32,
    pub text: String,
}

/// A 64-bit float as the bits of its IEEE-754 encoding, together with its
/// shortest round-trip decimal text (used when it is finite).
#[derive(Clone, Debug)]
pub struct Float64Value {
    pub bits: u64,
    pub text: String,
}

/// A date and a time of day.
#[derive(Clone, Copy, Debug, PartialEq, Eq, Structural)]
pub struct TimestampValue {
    pub date: DateValue,
    pub time: TimeValue,
}

/// A typed SQL value. Each variant holds `None` for the SQL `NULL` of its type;
/// a variant with `None` is also the prototype that describes a column type.
#[derive(Debug)]
pub enum Value {
    Null,
    Boolean(Option<bool>),
    Int8(Option<i8>),
    Int16(Option<i16>),
    Int32(Option<i32>),
    Int64(Option<i64>),
    Int128(Option<i128>),
    UInt8(Option<u8>),
    UInt16(Option<u16>),
    UInt32(Option<u32>),
    UInt64(Option<u64>),
    UInt128(Option<u128>),
    Float32(Option<Float32Value>),
    Float64(Option<Float64Value>),
    /// A decimal, with its width and scale (zero when not fixed).
    Decimal(Option<DecimalValue>, u8, u8),
    Char(Option<char>),
    Varchar(Option<String>),
    Blob(Option<Vec<u8>>),
    Date(Option<DateValue>),
    Time(Option<TimeValue>),
    Timestamp(Option<TimestampValue>),
    /// A timestamp with time zone, held as its UTC date and time.
    TimestampWithTimezone(Option<TimestampValue>),
    Interval(Option<Interval>),
    /// A UUID as its 128-bit number.
    Uuid(Option<u128>),
    /// A fixed-length array, with the prototype of its elements and its length.
    Array(Option<Vec<Value>>, Box<Value>, u32),
    /// A list, with the prototype of its elements.
    List(Option<Vec<Value>>, Box<Value>),
    /// A map as its entries, with the prototypes of its keys and values.
    Dict(Option<Vec<(Value, Value)>>, Box<Value>, Box<Value>),
    /// A struct as its named fields.
    Struct(Option<Vec<(String, Value)>>),
    /// A value whose type is not known yet, as the text it was read from.
    Unknown(Option<String>),
}

/// Which variants count as `NULL`: `Null` and every typed variant holding
/// `None`, except `Char`, `Struct` and `Unknown`.
pub open spec fn spec_is_null(v: Value) -> bool {
    match v {
        Value::Null => true,
        Value::Boolean(x) => x is None,
        Value::Int8(x) => x is None,
        Value::Int16(x) => x is None,
        Value::Int32(x) => x is None,
        Value::Int64(x) => x is None,
        Value::Int128(x) => x is None,
        Value::UInt8(x) => x is None,
        Value::UInt16(x) => x is None,
        Value::UInt32(x) => x is None,
        Value::UInt64(x) => x is None,
        Value::UInt128(x) => x is None,
        Value::Float32(x) => x is None,
        Value::Float64(x) => x is None,
        Value::Decimal(x, ..) => x is None,
        Value::Varchar(x) => x is None,
        Value::Blob(x) => x is None,
        Value::Date(x) => x is None,
        Value::Time(x) => x is None,
        Value::Timestamp(x) => x is None,
        Value::TimestampWithTimezone(x) => x is None,
        Value::Interval(x) => x is None,
        Value::Uuid(x) => x is None,
        Value::Array(x, ..) => x is None,
        Value::List(x, ..) => x is None,
        Value::Dict(x, ..) => x is None,
        Value::Char(_) => false,
        Value::Struct(_) => false,
        Value::Unknown(_) => false,
    }
}

/// Index of the variant, standing for its discriminant.
pub open spec fn variant_index(v: Value) -> int {
    match v {
        Value::Null => 0,
        Value::Boolean(..) => 1,
        Value::Int8(..) => 2,
        Value::Int16(..) => 3,
        Value::Int32(..) => 4,
        Value::Int64(..) => 5,
        Value::Int128(..) => 6,
        Value::UInt8(..) => 7,
        Value::UInt16(..) => 8,
        Value::UInt32(..) => 9,
        Value::UInt64(..) => 10,
        Value::UInt128(..) => 11,
        Value::Float32(..) => 12,
        Value::Float64(..) => 13,
        Value::Decimal(..) => 14,
        Value::Char(..) => 15,
        Value::Varchar(..) => 16,
        Value::Blob(..) => 17,
        Value::Date(..) => 18,
        Value::Time(..) => 19,
        Value::Timestamp(..) => 20,
        Value::TimestampWithTimezone(..) => 21,
        Value::Interval(..) => 22,
        Value::Uuid(..) => 23,
        Value::Array(..) => 24,
        Value::List(..) => 25,
        Value::Dict(..) => 26,
        Value::Struct(..) => 27,
        Value::Unknown(..) => 28,
    }
}

/// Whether two values have the same type: decimals agree on width and scale
/// where both are fixed (nonzero), arrays on length and element type, lists
/// on element type, maps on key and value types; other values on the variant.
pub open spec fn spec_same_type(a: Value, b: Value) -> bool
    decreases a,
{
    match (a, b) {
        (Value::Decimal(_, lw, ls), Value::Decimal(_, rw, rs)) => (lw == 0 || rw == 0 || lw == rw)
            && (ls == 0 || rs == 0 || ls == rs),
        (Value::Array(_, lt, ll), Value::Array(_, rt, rl)) => ll == rl && spec_same_type(*lt, *rt),
        (Value::List(_, lt), Value::List(_, rt)) => spec_same_type(*lt, *rt),
        (Value::Dict(_, lk, lv), Value::Dict(_, rk, rv)) => spec_same_type(*lk, *rk)
            && spec_same_type(*lv, *rv),
        _ => variant_index(a) == variant_index(b),
    }
}

impl Value {
    /// Whether the value is a SQL `NULL`.
    pub fn is_null(&self) -> (r: bool)
        ensures
            r == spec_is_null(*self),
    {
        match self {
            Value::Null => true,
            Value::Boolean(x) => x.is_none(),
            Value::Int8(x) => x.is_none(),
            Value::Int16(x) => x.is_none(),
            Value::Int32(x) => x.is_none(),
            Value::Int64(x) => x.is_none(),
            Value::Int128(x) => x.is_none(),
            Value::UInt8(x) => x.is_none(),
            Value::UInt16(x) => x.is_none(),
            Value::UInt32(x) => x.is_none(),
            Value::UInt64(x) => x.is_none(),
            Value::UInt128(x) => x.is_none(),
            Value::Float32(x) => x.is_none(),
            Value::Float64(x) => x.is_none(),
            Value::Decimal(x, ..) => x.is_none(),
            Value::Varchar(x) => x.is_none(),
            Value::Blob(x) => x.is_none(),
            Value::Date(x) => x.is_none(),
            Value::Time(x) => x.is_none(),
            Value::Timestamp(x) => x.is_none(),
            Value::TimestampWithTimezone(x) => x.is_none(),
            Value::Interval(x) => x.is_none(),
            Value::Uuid(x) => x.is_none(),
            Value::Array(x, ..) => x.is_none(),
            Value::List(x, ..) => x.is_none(),
            Value::Dict(x, ..) => x.is_none(),
            Value::Char(_) => false,
            Value::Struct(_) => false,
            Value::Unknown(_) => false,
        }
    }

    /// The index of the variant.
    pub(crate) fn variant(&self) -> (r: u8)
        ensures
            r == variant_index(*self),
    {
        match self {
            Value::Null => 0,
            Value::Boolean(..) => 1,
            Value::Int8(..) => 2,
            Value::Int16(..) => 3,
            Value::Int32(..) => 4,
            Value::Int64(..) => 5,
            Value::Int128(..) => 6,
            Value::UInt8(..) => 7,
            Value::UInt16(..) => 8,
            Value::UInt32(..) => 9,
            Value::UInt64(..) => 10,
            Value::UInt128(..) => 11,
            Value::Float32(..) => 12,
            Value::Float64(..) => 13,
            Value::Decimal(..) => 14,
            Value::Char(..) => 15,
            Value::Varchar(..) => 16,
            Value::Blob(..) => 17,
            Value::Date(..) => 18,
            Value::Time(..) => 19,
            Value::Timestamp(..) => 20,
            Value::TimestampWithTimezone(..) => 21,
            Value::Interval(..) => 22,
            Value::Uuid(..) => 23,
            Value::Array(..) => 24,
            Value::List(..) => 25,
            Value::Dict(..) => 26,
            Value::Struct(..) => 27,
            Value::Unknown(..) => 28,
        }
    }

    /// Whether `self` and `other` have the same type.
    pub fn same_type(&self, other: &Self) -> (r: bool)
        ensures
            r == spec_same_type(*self, *other),
        decreases self,
    {
        match (self, other) {
            (Value::Decimal(_, lw, ls), Value::Decimal(_, rw, rs)) => (*lw == 0 || *rw == 0 || *lw
                == *rw) && (*ls == 0 || *rs == 0 || *ls == *rs),
            (Value::Array(_, lt, ll), Value::Array(_, rt, rl)) => *ll == *rl && lt.same_type(rt),
            (Value::List(_, lt), Value::List(_, rt)) => lt.same_type(rt),
            (Value::Dict(_, lk, lv), Value::Dict(_, rk, rv)) => lk.same_type(rk) && lv.same_type(rv),
            _ => self.variant() == other.variant(),
        }
    }
}


/// `rust_decimal::Decimal`'s `==`: whether the two decimals have the same
/// numeric value (`1.0 == 1.00`). Claimed here: exactly when
/// `m1 * 10^s2 == m2 * 10^s1`.
#[verifier::external_body]
fn decimal_eq(a: &DecimalValue, b: &DecimalValue) -> (r: bool)
    ensures
        r == (a.spec_mantissa() * pow10(b.spec_scale() as nat) == b.spec_mantissa() * pow10(
            a.spec_scale() as nat,
        )),
{
    rust_decimal::Decimal::from_i128_with_scale(a.mantissa, a.scale)
        == rust_decimal::Decimal::from_i128_with_scale(b.mantissa, b.scale)
}

/// `10^n`.
pub open spec fn pow10(n: nat) -> int
    decreases n,
{
    if n == 0 {
        1
    } else {
        10 * pow10((n - 1) as nat)
    }
}

/// Whether the bits encode a 32-bit NaN.
pub open spec fn is_nan32(bits: u32) -> bool {
    bits & 0x7f80_0000 == 0x7f80_0000 && bits & 0x007f_ffff != 0
}

/// Whether the bits encode a 64-bit NaN.
pub open spec fn is_nan64(bits: u64) -> bool {
    bits & 0x7ff0_0000_0000_0000 == 0x7ff0_0000_0000_0000 && bits & 0x000f_ffff_ffff_ffff != 0
}

/// Float equality where NaN equals NaN: same encoding, both zeros (of any
/// sign), or both NaN.
pub open spec fn float32_eq(a: u32, b: u32) -> bool {
    if is_nan32(a) || is_nan32(b) {
        is_nan32(a) && is_nan32(b)
    } else {
        a == b || (a & 0x7fff_ffff == 0 && b & 0x7fff_ffff == 0)
    }
}

/// Float equality where NaN equals NaN: same encoding, both zeros (of any
/// sign), or both NaN.
pub open spec fn float64_eq(a: u64, b: u64) -> bool {
    if is_nan64(a) || is_nan64(b) {
        is_nan64(a) && is_nan64(b)
    } else {
        a == b || (a & 0x7fff_ffff_ffff_ffff == 0 && b & 0x7fff_ffff_ffff_ffff == 0)
    }
}

fn float32_equal(a: u32, b: u32) -> (r: bool)
    ensures
        r == float32_eq(a, b),
{
    let a_nan = a & 0x7f80_0000 == 0x7f80_0000 && a & 0x007f_ffff != 0;
    let b_nan = b & 0x7f80_0000 == 0x7f80_0000 && b & 0x007f_ffff != 0;
    if a_nan || b_nan {
        a_nan && b_nan
    } else {
        a == b || (a & 0x7fff_ffff == 0 && b & 0x7fff_ffff == 0)
    }
}

pub(crate) fn float64_equal(a: u64, b: u64) -> (r: bool)
    ensures
        r == float64_eq(a, b),
{
    let a_nan = a & 0x7ff0_0000_0000_0000 == 0x7ff0_0000_0000_0000 && a & 0x000f_ffff_ffff_ffff
        != 0;
    let b_nan = b & 0x7ff0_0000_0000_0000 == 0x7ff0_0000_0000_0000 && b & 0x000f_ffff_ffff_ffff
        != 0;
    if a_nan || b_nan {
        a_nan && b_nan
    } else {
        a == b || (a & 0x7fff_ffff_ffff_ffff == 0 && b & 0x7fff_ffff_ffff_ffff == 0)
    }
}

/// What `==` means on values. Values of different variants differ; floats
/// compare as numbers with NaN equal to NaN; decimals compare numerically
/// and on width and scale; arrays and lists compare element-wise and on
/// their type; maps compare on their type and their entries, in any order
/// (each entry of one has an equal entry in the other, and both have as
/// many); structs compare field by field; other values on what they hold.
pub open spec fn spec_value_eq(a: Value, b: Value) -> bool
    decreases a,
{
    match (a, b) {
        (Value::Null, Value::Null) => true,
        (Value::Boolean(l), Value::Boolean(r)) => l == r,
        (Value::Int8(l), Value::Int8(r)) => l == r,
        (Value::Int16(l), Value::Int16(r)) => l == r,
        (Value::Int32(l), Value::Int32(r)) => l == r,
        (Value::Int64(l), Value::Int64(r)) => l == r,
        (Value::Int128(l), Value::Int128(r)) => l == r,
        (Value::UInt8(l), Value::UInt8(r)) => l == r,
        (Value::UInt16(l), Value::UInt16(r)) => l == r,
        (Value::UInt32(l), Value::UInt32(r)) => l == r,
        (Value::UInt64(l), Value::UInt64(r)) => l == r,
        (Value::UInt128(l), Value::UInt128(r)) => l == r,
        (Value::Float32(l), Value::Float32(r)) => match (l, r) {
            (None, None) => true,
            (Some(x), Some(y)) => float32_eq(x.bits, y.bits),
            _ => false,
        },
        (Value::Float64(l), Value::Float64(r)) => match (l, r) {
            (None, None) => true,
            (Some(x), Some(y)) => float64_eq(x.bits, y.bits),
            _ => false,
        },
        (Value::Decimal(l, lw, ls), Value::Decimal(r, rw, rs)) => (match (l, r) {
            (None, None) => true,
            (Some(x), Some(y)) => x.spec_mantissa() * pow10(y.spec_scale() as nat)
                == y.spec_mantissa() * pow10(x.spec_scale() as nat),
            _ => false,
        }) && lw == rw && ls == rs,
        (Value::Varchar(l), Value::Varchar(r)) => match (l, r) {
            (None, None) => true,
            (Some(x), Some(y)) => x@ == y@,
            _ => false,
        },
        (Value::Blob(l), Value::Blob(r)) => match (l, r) {
            (None, None) => true,
            (Some(x), Some(y)) => x@ == y@,
            _ => false,
        },
        (Value::Date(l), Value::Date(r)) => l == r,
        (Value::Time(l), Value::Time(r)) => l == r,
        (Value::Timestamp(l), Value::Timestamp(r)) => l == r,
        (Value::TimestampWithTimezone(l), Value::TimestampWithTimezone(r)) => l == r,
        (Value::Interval(l), Value::Interval(r)) => match (l, r) {
            (None, None) => true,
            (Some(x), Some(y)) => x.equivalent(y),
            _ => false,
        },
        (Value::Uuid(l), Value::Uuid(r)) => l == r,
        (Value::Array(l, ..), Value::Array(r, ..)) => (match (l, r) {
            (None, None) => true,
            (Some(x), Some(y)) => x.len() == y.len() && forall|i: int|
                0 <= i < x.len() ==> spec_value_eq(#[trigger] x@[i], y@[i]),
            _ => false,
        }) && spec_same_type(a, b),
        (Value::List(l, ..), Value::List(r, ..)) => (match (l, r) {
            (None, None) => true,
            (Some(x), Some(y)) => x.len() == y.len() && forall|i: int|
                0 <= i < x.len() ==> spec_value_eq(#[trigger] x@[i], y@[i]),
            _ => false,
        }) && spec_same_type(a, b),
        (Value::Dict(l, ..), Value::Dict(r, ..)) => (match (l, r) {
            (None, None) => true,
            (Some(x), Some(y)) => x.len() == y.len() && (forall|i: int|
                0 <= i < x.len() ==> has_match(#[trigger] x@[i], y@)) && (forall|j: int|
                0 <= j < y.len() ==> has_match_in(x@, #[trigger] y@[j])),
            _ => false,
        }) && spec_same_type(a, b),
        (Value::Char(l), Value::Char(r)) => l == r,
        (Value::Struct(l), Value::Struct(r)) => match (l, r) {
            (None, None) => true,
            (Some(x), Some(y)) => x.len() == y.len() && forall|i: int|
                0 <= i < x.len() ==> (#[trigger] x@[i]).0@ == y@[i].0@ && spec_value_eq(
                    x@[i].1,
                    y@[i].1,
                ),
            _ => false,
        },
        (Value::Unknown(l), Value::Unknown(r)) => match (l, r) {
            (None, None) => true,
            (Some(x), Some(y)) => x@ == y@,
            _ => false,
        },
        _ => false,
    }
}

/// Whether `ys` holds an entry with a key equal to `p`'s and a value equal
/// to `p`'s.
pub open spec fn has_match(p: (Value, Value), ys: Seq<(Value, Value)>) -> bool
    decreases p,
{
    exists|j: int|
        0 <= j < ys.len() && spec_value_eq(p.0, (#[trigger] ys[j]).0) && spec_value_eq(p.1, ys[j].1)
}

/// Whether `xs` holds an entry with a key equal to `q`'s and a value equal
/// to `q`'s.
pub open spec fn has_match_in(xs: Seq<(Value, Value)>, q: (Value, Value)) -> bool
    decreases xs,
{
    exists|i: int|
        0 <= i < xs.len() && spec_value_eq((#[trigger] xs[i]).0, q.0) && spec_value_eq(xs[i].1, q.1)
}

/// Element-wise equality of two lists of values.
fn values_eq_all(x: &Vec<Value>, y: &Vec<Value>, Ghost(bound): Ghost<Value>) -> (r: bool)
    requires
        forall|i: int| 0 <= i < x.len() ==> decreases_to!(bound => #[trigger] x@[i]),
    ensures
        r == (x.len() == y.len() && forall|i: int|
            0 <= i < x.len() ==> spec_value_eq(#[trigger] x@[i], y@[i])),
    decreases bound, 2nat,
{
    if x.len() != y.len() {
        return false;
    }
    let mut i: usize = 0;
    while i < x.len()
        invariant
            x.len() == y.len(),
            i <= x.len(),
            forall|j: int| 0 <= j < x.len() ==> decreases_to!(bound => #[trigger] x@[j]),
            forall|j: int| 0 <= j < i ==> spec_value_eq(#[trigger] x@[j], y@[j]),
        decreases x.len() - i,
    {
        assert(decreases_to!(bound => x@[i as int]));
        if !values_eq(&x[i], &y[i]) {
            return false;
        }
        i = i + 1;
    }
    true
}

fn values_eq(a: &Value, b: &Value) -> (r: bool)
    ensures
        r == spec_value_eq(*a, *b),
    decreases *a, 3nat,
{
    match (a, b) {
        (Value::Null, Value::Null) => true,
        (Value::Boolean(l), Value::Boolean(r)) => *l == *r,
        (Value::Int8(l), Value::Int8(r)) => *l == *r,
        (Value::Int16(l), Value::Int16(r)) => *l == *r,
        (Value::Int32(l), Value::Int32(r)) => *l == *r,
        (Value::Int64(l), Value::Int64(r)) => *l == *r,
        (Value::Int128(l), Value::Int128(r)) => *l == *r,
        (Value::UInt8(l), Value::UInt8(r)) => *l == *r,
        (Value::UInt16(l), Value::UInt16(r)) => *l == *r,
        (Value::UInt32(l), Value::UInt32(r)) => *l == *r,
        (Value::UInt64(l), Value::UInt64(r)) => *l == *r,
        (Value::UInt128(l), Value::UInt128(r)) => *l == *r,
        (Value::Float32(l), Value::Float32(r)) => match (l, r) {
            (None, None) => true,
            (Some(x), Some(y)) => float32_equal(x.bits, y.bits),
            _ => false,
        },
        (Value::Float64(l), Value::Float64(r)) => match (l, r) {
            (None, None) => true,
            (Some(x), Some(y)) => float64_equal(x.bits, y.bits),
            _ => false,
        },
        (Value::Decimal(l, lw, ls), Value::Decimal(r, rw, rs)) => (match (l, r) {
            (None, None) => true,
            (Some(x), Some(y)) => decimal_eq(x, y),
            _ => false,
        }) && *lw == *rw && *ls == *rs,
        (Value::Varchar(l), Value::Varchar(r)) => match (l, r) {
            (None, None) => true,
            (Some(x), Some(y)) => *x == *y,
            _ => false,
        },
        (Value::Blob(l), Value::Blob(r)) => match (l, r) {
            (None, None) => true,
            (Some(x), Some(y)) => bytes_eq(x, y),
            _ => false,
        },
        (Value::Date(l), Value::Date(r)) => *l == *r,
        (Value::Time(l), Value::Time(r)) => *l == *r,
        (Value::Timestamp(l), Value::Timestamp(r)) => *l == *r,
        (Value::TimestampWithTimezone(l), Value::TimestampWithTimezone(r)) => *l == *r,
        (Value::Interval(l), Value::Interval(r)) => match (l, r) {
            (None, None) => true,
            (Some(x), Some(y)) => *x == *y,
            _ => false,
        },
        (Value::Uuid(l), Value::Uuid(r)) => *l == *r,
        (Value::Array(l, ..), Value::Array(r, ..)) => (match (l, r) {
            (None, None) => true,
            (Some(x), Some(y)) => {
                proof {
                    assert forall|i: int| 0 <= i < x.len() implies decreases_to!(*a => #[trigger] x@[i]) by {
                        assert(decreases_to!(*x => x@));
                        assert(decreases_to!(x@ => x@[i]));
                    }
                }
                values_eq_all(x, y, Ghost(*a))
            },
            _ => false,
        }) && a.same_type(b),
        (Value::List(l, ..), Value::List(r, ..)) => (match (l, r) {
            (None, None) => true,
            (Some(x), Some(y)) => {
                proof {
                    assert forall|i: int| 0 <= i < x.len() implies decreases_to!(*a => #[trigger] x@[i]) by {
                        assert(decreases_to!(*x => x@));
                        assert(decreases_to!(x@ => x@[i]));
                    }
                }
                values_eq_all(x, y, Ghost(*a))
            },
            _ => false,
        }) && a.same_type(b),
        (Value::Dict(l, ..), Value::Dict(r, ..)) => (match (l, r) {
            (None, None) => true,
            (Some(x), Some(y)) => {
                proof {
                    assert forall|i: int| 0 <= i < x.len() implies decreases_to!(*a => (#[trigger] x@[i]).0)
                        && decreases_to!(*a => x@[i].1) by {
                        assert(decreases_to!(*x => x@));
                        assert(decreases_to!(x@ => x@[i]));
                        assert(decreases_to!(x@[i] => x@[i].0));
                        assert(decreases_to!(x@[i] => x@[i].1));
                    }
                }
                x.len() == y.len() && entries_in(x, y, Ghost(*a)) && entries_covered(x, y, Ghost(*a))
            },
            _ => false,
        }) && a.same_type(b),
        (Value::Char(l), Value::Char(r)) => *l == *r,
        (Value::Struct(l), Value::Struct(r)) => match (l, r) {
            (None, None) => true,
            (Some(x), Some(y)) => {
                proof {
                    assert forall|i: int| 0 <= i < x.len() implies decreases_to!(*a => (#[trigger] x@[i]).1) by {
                        assert(decreases_to!(*x => x@));
                        assert(decreases_to!(x@ => x@[i]));
                        assert(decreases_to!(x@[i] => x@[i].1));
                    }
                }
                fields_eq(x, y, Ghost(*a))
            },
            _ => false,
        },
        (Value::Unknown(l), Value::Unknown(r)) => match (l, r) {
            (None, None) => true,
            (Some(x), Some(y)) => *x == *y,
            _ => false,
        },
        _ => false,
    }
}

/// Whether two map entries are equal.
fn entry_eq(p: &(Value, Value), q: &(Value, Value), Ghost(bound): Ghost<Value>) -> (r: bool)
    requires
        decreases_to!(bound => p.0),
        decreases_to!(bound => p.1),
    ensures
        r == (spec_value_eq(p.0, q.0) && spec_value_eq(p.1, q.1)),
    decreases bound, 0nat,
{
    values_eq(&p.0, &q.0) && values_eq(&p.1, &q.1)
}

/// Whether `y` holds an entry equal to `p`.
fn has_entry(p: &(Value, Value), y: &Vec<(Value, Value)>, Ghost(bound): Ghost<Value>) -> (r: bool)
    requires
        decreases_to!(bound => p.0),
        decreases_to!(bound => p.1),
    ensures
        r == has_match(*p, y@),
    decreases bound, 1nat,
{
    let mut j: usize = 0;
    while j < y.len()
        invariant
            j <= y.len(),
            decreases_to!(bound => p.0),
            decreases_to!(bound => p.1),
            forall|m: int| 0 <= m < j ==> !(spec_value_eq(p.0, (#[trigger] y@[m]).0) && spec_value_eq(p.1, y@[m].1)),
        decreases y.len() - j,
    {
        if entry_eq(p, &y[j], Ghost(bound)) {
            return true;
        }
        j = j + 1;
    }
    false
}

/// Whether `x` holds an entry equal to `q`.
fn has_entry_in(x: &Vec<(Value, Value)>, q: &(Value, Value), Ghost(bound): Ghost<Value>) -> (r: bool)
    requires
        forall|i: int|
            0 <= i < x.len() ==> decreases_to!(bound => (#[trigger] x@[i]).0) && decreases_to!(bound => x@[i].1),
    ensures
        r == has_match_in(x@, *q),
    decreases bound, 1nat,
{
    let mut i: usize = 0;
    while i < x.len()
        invariant
            i <= x.len(),
            forall|k: int|
                0 <= k < x.len() ==> decreases_to!(bound => (#[trigger] x@[k]).0) && decreases_to!(bound => x@[k].1),
            forall|m: int| 0 <= m < i ==> !(spec_value_eq((#[trigger] x@[m]).0, q.0) && spec_value_eq(x@[m].1, q.1)),
        decreases x.len() - i,
    {
        assert(decreases_to!(bound => x@[i as int].0));
        assert(decreases_to!(bound => x@[i as int].1));
        if entry_eq(&x[i], q, Ghost(bound)) {
            return true;
        }
        i = i + 1;
    }
    false
}

/// Whether every entry of `x` has an equal entry in `y`.
fn entries_in(x: &Vec<(Value, Value)>, y: &Vec<(Value, Value)>, Ghost(bound): Ghost<Value>) -> (r: bool)
    requires
        forall|i: int|
            0 <= i < x.len() ==> decreases_to!(bound => (#[trigger] x@[i]).0) && decreases_to!(bound => x@[i].1),
    ensures
        r == (forall|i: int| 0 <= i < x.len() ==> has_match(#[trigger] x@[i], y@)),
    decreases bound, 2nat,
{
    let mut i: usize = 0;
    while i < x.len()
        invariant
            i <= x.len(),
            forall|k: int|
                0 <= k < x.len() ==> decreases_to!(bound => (#[trigger] x@[k]).0) && decreases_to!(bound => x@[k].1),
            forall|k: int| 0 <= k < i ==> has_match(#[trigger] x@[k], y@),
        decreases x.len() - i,
    {
        assert(decreases_to!(bound => x@[i as int].0));
        assert(decreases_to!(bound => x@[i as int].1));
        if !has_entry(&x[i], y, Ghost(bound)) {
            return false;
        }
        i = i + 1;
    }
    true
}

/// Whether every entry of `y` has an equal entry in `x`.
fn entries_covered(x: &Vec<(Value, Value)>, y: &Vec<(Value, Value)>, Ghost(bound): Ghost<Value>) -> (r: bool)
    requires
        forall|i: int|
            0 <= i < x.len() ==> decreases_to!(bound => (#[trigger] x@[i]).0) && decreases_to!(bound => x@[i].1),
    ensures
        r == (forall|j: int| 0 <= j < y.len() ==> has_match_in(x@, #[trigger] y@[j])),
    decreases bound, 2nat,
{
    let mut j: usize = 0;
    while j < y.len()
        invariant
            j <= y.len(),
            forall|k: int|
                0 <= k < x.len() ==> decreases_to!(bound => (#[trigger] x@[k]).0) && decreases_to!(bound => x@[k].1),
            forall|k: int| 0 <= k < j ==> has_match_in(x@, #[trigger] y@[k]),
        decreases y.len() - j,
    {
        if !has_entry_in(x, &y[j], Ghost(bound)) {
            return false;
        }
        j = j + 1;
    }
    true
}

/// Field-wise equality of two structs: the same names, equal values.
fn fields_eq(x: &Vec<(String, Value)>, y: &Vec<(String, Value)>, Ghost(bound): Ghost<Value>) -> (r: bool)
    requires
        forall|i: int| 0 <= i < x.len() ==> decreases_to!(bound => (#[trigger] x@[i]).1),
    ensures
        r == (x.len() == y.len() && forall|i: int|
            0 <= i < x.len() ==> (#[trigger] x@[i]).0@ == y@[i].0@ && spec_value_eq(x@[i].1, y@[i].1)),
    decreases bound, 2nat,
{
    if x.len() != y.len() {
        return false;
    }
    let mut i: usize = 0;
    while i < x.len()
        invariant
            x.len() == y.len(),
            i <= x.len(),
            forall|k: int| 0 <= k < x.len() ==> decreases_to!(bound => (#[trigger] x@[k]).1),
            forall|k: int| 0 <= k < i ==> (#[trigger] x@[k]).0@ == y@[k].0@ && spec_value_eq(x@[k].1, y@[k].1),
        decreases x.len() - i,
    {
        assert(decreases_to!(bound => x@[i as int].1));
        let same_name = x[i].0 == y[i].0;
        let same_value = values_eq(&x[i].1, &y[i].1);
        if !same_name || !same_value {
            assert(!(x@[i as int].0@ == y@[i as int].0@ && spec_value_eq(x@[i as int].1, y@[i as int].1)));
            return false;
        }
        i = i + 1;
    }
    true
}

/// Byte-wise equality of two byte vectors.
fn bytes_eq(x: &Vec<u8>, y: &Vec<u8>) -> (r: bool)
    ensures
        r == (x@ == y@),
{
    if x.len() != y.len() {
        return false;
    }
    let mut i: usize = 0;
    while i < x.len()
        invariant
            x.len() == y.len(),
            i <= x.len(),
            forall|j: int| 0 <= j < i ==> x@[j] == y@[j],
        decreases x.len() - i,
    {
        if x[i] != y[i] {
            return false;
        }
        i = i + 1;
    }
    assert(x@ =~= y@);
    true
}

/// Every value has the same type as itself.
proof fn lemma_same_type_reflexive(v: Value)
    ensures
        spec_same_type(v, v),
    decreases v,
{
    match v {
        Value::Array(_, t, _) => lemma_same_type_reflexive(*t),
        Value::List(_, t) => lemma_same_type_reflexive(*t),
        Value::Dict(_, k, w) => {
            lemma_same_type_reflexive(*k);
            lemma_same_type_reflexive(*w);
        },
        _ => {},
    }
}

/// Having the same type is symmetric.
proof fn lemma_same_type_symmetric(a: Value, b: Value)
    requires
        spec_same_type(a, b),
    ensures
        spec_same_type(b, a),
    decreases a,
{
    match (a, b) {
        (Value::Array(_, s, _), Value::Array(_, t, _)) => lemma_same_type_symmetric(*s, *t),
        (Value::List(_, s), Value::List(_, t)) => lemma_same_type_symmetric(*s, *t),
        (Value::Dict(_, k, w), Value::Dict(_, l, u)) => {
            lemma_same_type_symmetric(*k, *l);
            lemma_same_type_symmetric(*w, *u);
        },
        _ => {},
    }
}

/// Every value equals itself.
pub proof fn law_value_eq_reflexive(v: Value)
    ensures
        spec_value_eq(v, v),
    decreases v,
{
    lemma_same_type_reflexive(v);
    match v {
        Value::Array(Some(x), _, _) => {
            assert forall|i: int| 0 <= i < x.len() implies spec_value_eq(#[trigger] x@[i], x@[i]) by {
                assert(decreases_to!(x => x@));
                assert(decreases_to!(x@ => x@[i]));
                law_value_eq_reflexive(x@[i]);
            }
        },
        Value::List(Some(x), _) => {
            assert forall|i: int| 0 <= i < x.len() implies spec_value_eq(#[trigger] x@[i], x@[i]) by {
                assert(decreases_to!(x => x@));
                assert(decreases_to!(x@ => x@[i]));
                law_value_eq_reflexive(x@[i]);
            }
        },
        Value::Dict(Some(x), _, _) => {
            assert forall|i: int| 0 <= i < x.len() implies has_match(#[trigger] x@[i], x@) && has_match_in(
                x@,
                x@[i],
            ) by {
                assert(decreases_to!(x => x@));
                assert(decreases_to!(x@ => x@[i]));
                assert(decreases_to!(x@[i] => x@[i].0));
                assert(decreases_to!(x@[i] => x@[i].1));
                law_value_eq_reflexive(x@[i].0);
                law_value_eq_reflexive(x@[i].1);
            }
        },
        Value::Struct(Some(x)) => {
            assert forall|i: int| 0 <= i < x.len() implies (#[trigger] x@[i]).0@ == x@[i].0@
                && spec_value_eq(x@[i].1, x@[i].1) by {
                assert(decreases_to!(x => x@));
                assert(decreases_to!(x@ => x@[i]));
                assert(decreases_to!(x@[i] => x@[i].1));
                law_value_eq_reflexive(x@[i].1);
            }
        },
        _ => {},
    }
}

/// Equality of values is symmetric.
pub proof fn law_value_eq_symmetric(a: Value, b: Value)
    requires
        spec_value_eq(a, b),
    ensures
        spec_value_eq(b, a),
    decreases a,
{
    match (a, b) {
        (Value::Array(l, ..), Value::Array(r, ..)) => {
            lemma_same_type_symmetric(a, b);
            if let (Some(x), Some(y)) = (l, r) {
                assert forall|i: int| 0 <= i < y.len() implies spec_value_eq(#[trigger] y@[i], x@[i]) by {
                    assert(spec_value_eq(x@[i], y@[i]));
                    assert(decreases_to!(x => x@));
                    assert(decreases_to!(x@ => x@[i]));
                    law_value_eq_symmetric(x@[i], y@[i]);
                }
            }
        },
        (Value::List(l, ..), Value::List(r, ..)) => {
            lemma_same_type_symmetric(a, b);
            if let (Some(x), Some(y)) = (l, r) {
                assert forall|i: int| 0 <= i < y.len() implies spec_value_eq(#[trigger] y@[i], x@[i]) by {
                    assert(spec_value_eq(x@[i], y@[i]));
                    assert(decreases_to!(x => x@));
                    assert(decreases_to!(x@ => x@[i]));
                    law_value_eq_symmetric(x@[i], y@[i]);
                }
            }
        },
        (Value::Dict(l, ..), Value::Dict(r, ..)) => {
            lemma_same_type_symmetric(a, b);
            if let (Some(x), Some(y)) = (l, r) {
                assert forall|j: int| 0 <= j < y.len() implies has_match(#[trigger] y@[j], x@) by {
                    assert(has_match_in(x@, y@[j]));
                    let i = choose|i: int|
                        0 <= i < x@.len() && spec_value_eq((#[trigger] x@[i]).0, y@[j].0)
                            && spec_value_eq(x@[i].1, y@[j].1);
                    assert(decreases_to!(x => x@));
                    assert(decreases_to!(x@ => x@[i]));
                    assert(decreases_to!(x@[i] => x@[i].0));
                    assert(decreases_to!(x@[i] => x@[i].1));
                    law_value_eq_symmetric(x@[i].0, y@[j].0);
                    law_value_eq_symmetric(x@[i].1, y@[j].1);
                }
                assert forall|i: int| 0 <= i < x.len() implies has_match_in(y@, #[trigger] x@[i]) by {
                    assert(has_match(x@[i], y@));
                    let j = choose|j: int|
                        0 <= j < y@.len() && spec_value_eq(x@[i].0, (#[trigger] y@[j]).0)
                            && spec_value_eq(x@[i].1, y@[j].1);
                    assert(decreases_to!(x => x@));
                    assert(decreases_to!(x@ => x@[i]));
                    assert(decreases_to!(x@[i] => x@[i].0));
                    assert(decreases_to!(x@[i] => x@[i].1));
                    law_value_eq_symmetric(x@[i].0, y@[j].0);
                    law_value_eq_symmetric(x@[i].1, y@[j].1);
                }
            }
        },
        (Value::Struct(Some(x)), Value::Struct(Some(y))) => {
            assert forall|i: int| 0 <= i < y.len() implies (#[trigger] y@[i]).0@ == x@[i].0@
                && spec_value_eq(y@[i].1, x@[i].1) by {
                assert(x@[i].0@ == y@[i].0@ && spec_value_eq(x@[i].1, y@[i].1));
                assert(decreases_to!(x => x@));
                assert(decreases_to!(x@ => x@[i]));
                assert(decreases_to!(x@[i] => x@[i].1));
                law_value_eq_symmetric(x@[i].1, y@[i].1);
            }
        },
        (Value::Decimal(Some(x), ..), Value::Decimal(Some(y), ..)) => {},
        _ => {},
    }
}

impl PartialEq for Value {
    fn eq(&self, other: &Self) -> (r: bool) {
        values_eq(self, other)
    }
}

impl Eq for Value {}

impl vstd::std_specs::cmp::PartialEqSpecImpl for Value {
    open spec fn obeys_eq_spec() -> bool {
        true
    }

    open spec fn eq_spec(&self, other: &Self) -> bool {
        spec_value_eq(*self, *other)
    }
}

} // verus!
