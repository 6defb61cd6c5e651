//! Conversions between Rust values and typed SQL values.
use vstd::prelude::*;
use vstd::string::StrSliceExecFns;
use vstd::string::StringExecFns;
use std::borrow::Cow;
use crate::text::push_char;
use crate::util::consume_while;
use crate::parse_int::{
    ConversionError, extract_signed, extract_unsigned, integer_read, integer_readable,
};
use crate::value::{DecimalValue, Value, pow10, spec_is_null};

verus! {

/// Values that convert to and from typed SQL values.
pub trait AsValue: Sized {
    /// Whether converting `value` to this type completes (reading the text
    /// of a value of unknown type may not).
    spec fn readable(value: Value) -> bool;

    /// Whether `result` is what converting `value` to this type gives.
    spec fn converts(value: Value, result: Result<Self, ConversionError>) -> bool;

    /// The prototype of this type's values.
    spec fn spec_empty() -> Value;

    /// Whether `v` is the SQL value holding `self`.
    spec fn valued(self, v: Value) -> bool;

    /// The prototype of this type's values.
    fn as_empty_value() -> (r: Value)
        ensures
            r == Self::spec_empty(),
    ;

    /// The SQL value holding `self`.
    fn as_value(self) -> (r: Value)
        ensures
            self.valued(r),
    ;

    /// `value` converted to this type.
    fn try_from_value(value: Value) -> (r: Result<Self, ConversionError>)
        requires
            Self::readable(value),
        ensures
            Self::converts(value, r),
    ;

    /// Whether reading a value of this type from the start of `s` completes.
    spec fn extract_readable(s: Seq<char>) -> bool;

    /// Whether reading a value of this type from the start of `s` gives
    /// `result` and leaves the text `rest`.
    spec fn extracts(s: Seq<char>, result: Result<Self, ConversionError>, rest: Seq<char>) -> bool;

    /// Reads a value of this type from the start of `input`, leaving `input`
    /// after what was read.
    fn extract(input: &mut &str) -> (r: Result<Self, ConversionError>)
        requires
            Self::extract_readable(old(input)@),
        ensures
            Self::extracts(old(input)@, r, final(input)@),
    ;
}

/// Reading an integer in `lo..=hi` from the whole text.
pub open spec fn integer_parsed(s: Seq<char>, lo: int, hi: int, signed: bool) -> Result<
    int,
    ConversionError,
> {
    match integer_read(s, lo, hi, signed) {
        Ok((n, k)) => if k == s.len() {
            Ok(n)
        } else {
            Err(ConversionError::TrailingInput)
        },
        Err(e) => Err(e),
    }
}

/// The value of a decimal with no fractional part, when it lies in `lo..=hi`.
pub open spec fn decimal_integer(d: DecimalValue, lo: int, hi: int) -> Result<int, ConversionError> {
    let p = pow10(d.spec_scale() as nat);
    if (d.spec_mantissa() as int) % p != 0 {
        Err(ConversionError::NotInteger)
    } else if lo <= (d.spec_mantissa() as int) / p <= hi {
        Ok((d.spec_mantissa() as int) / p)
    } else {
        Err(ConversionError::OutOfRange)
    }
}

/// `rust_decimal::Decimal::is_integer`: whether the decimal has no
/// fractional part, that is whether `10^scale` divides the mantissa.
#[verifier::external_body]
fn decimal_is_integer(d: &DecimalValue) -> (r: bool)
    ensures
        r == ((d.spec_mantissa() as int) % pow10(d.spec_scale() as nat) == 0),
{
    rust_decimal::Decimal::from_i128_with_scale(d.mantissa(), d.scale()).is_integer()
}

/// `ToPrimitive::to_i128` of `rust_decimal::Decimal`, on a decimal with no
/// fractional part: its value, the mantissa divided by `10^scale`.
#[verifier::external_body]
fn decimal_to_i128(d: &DecimalValue) -> (r: i128)
    requires
        (d.spec_mantissa() as int) % pow10(d.spec_scale() as nat) == 0,
    ensures
        r == (d.spec_mantissa() as int) / pow10(d.spec_scale() as nat),
{
    let value = rust_decimal::Decimal::from_i128_with_scale(d.mantissa(), d.scale());
    rust_decimal::prelude::ToPrimitive::to_i128(&value).unwrap_or(0)
}

/// The value of a decimal with no fractional part, when it lies in `lo..=hi`.
fn decimal_integer_value(d: &DecimalValue, lo: i128, hi: u128) -> (r: Result<i128, ConversionError>)
    ensures
        match decimal_integer(*d, lo as int, hi as int) {
            Ok(n) => r == Ok::<i128, ConversionError>(n as i128),
            Err(e) => r == Err::<i128, ConversionError>(e),
        },
        decimal_integer(*d, lo as int, hi as int) matches Ok(n) ==> n <= i128::MAX,
{
    if !decimal_is_integer(d) {
        return Err(ConversionError::NotInteger);
    }
    let q = decimal_to_i128(d);
    if q < lo || (q >= 0 && q as u128 > hi) {
        Err(ConversionError::OutOfRange)
    } else {
        Ok(q)
    }
}

/// Reads a signed integer in `lo..=hi` from the whole text.
fn parse_signed(s: &str, lo: i128, hi: i128) -> (r: Result<i128, ConversionError>)
    requires
        integer_readable(s@, true),
    ensures
        match integer_parsed(s@, lo as int, hi as int, true) {
            Ok(n) => r == Ok::<i128, ConversionError>(n as i128),
            Err(e) => r == Err::<i128, ConversionError>(e),
        },
{
    let mut input = s;
    match extract_signed(&mut input, lo, hi) {
        Ok(n) => if input.is_empty() {
            Ok(n)
        } else {
            Err(ConversionError::TrailingInput)
        },
        Err(e) => Err(e),
    }
}

/// Reads an unsigned integer in `0..=hi` from the whole text.
fn parse_unsigned_integer(s: &str, hi: u128) -> (r: Result<u128, ConversionError>)
    requires
        integer_readable(s@, false),
    ensures
        match integer_parsed(s@, 0, hi as int, false) {
            Ok(n) => r == Ok::<u128, ConversionError>(n as u128),
            Err(e) => r == Err::<u128, ConversionError>(e),
        },
{
    let mut input = s;
    match extract_unsigned(&mut input, hi) {
        Ok(n) => if input.is_empty() {
            Ok(n)
        } else {
            Err(ConversionError::TrailingInput)
        },
        Err(e) => Err(e),
    }
}

/// What converting a value to `i8` gives.
pub open spec fn i8_from_value(v: Value) -> Result<i8, ConversionError> {
    match v {
        Value::Int8(Some(x)) => Ok(x),
        Value::UInt8(Some(x)) => Ok(x as i8),
        Value::Int16(Some(x)) => if -128 <= (x as int) <= 127 {
            Ok(x as i8)
        } else {
            Err(ConversionError::OutOfRange)
        },
        Value::Int32(Some(x)) => if -128 <= (x as int) <= 127 {
            Ok(x as i8)
        } else {
            Err(ConversionError::OutOfRange)
        },
        Value::Int64(Some(x)) => if -128 <= (x as int) <= 127 {
            Ok(x as i8)
        } else {
            Err(ConversionError::OutOfRange)
        },
        Value::Unknown(Some(s)) => match integer_parsed(s@, -128, 127, true) {
            Ok(n) => Ok(n as i8),
            Err(e) => Err(e),
        },
        _ => Err(ConversionError::Incompatible),
    }
}

impl AsValue for i8 {
    open spec fn converts(value: Value, result: Result<i8, ConversionError>) -> bool {
        result == i8_from_value(value)
    }

    open spec fn spec_empty() -> Value {
        Value::Int8(None)
    }

    open spec fn valued(self, v: Value) -> bool {
        v == Value::Int8(Some(self))
    }

    open spec fn readable(value: Value) -> bool {
        value matches Value::Unknown(Some(s)) ==> integer_readable(s@, true)
    }

    fn as_empty_value() -> (r: Value)
        ensures
            r == Value::Int8(None),
    {
        Value::Int8(None)
    }

    fn as_value(self) -> (r: Value)
        ensures
            r == Value::Int8(Some(self)),
    {
        Value::Int8(Some(self))
    }

    fn try_from_value(value: Value) -> (r: Result<i8, ConversionError>)
        ensures
            r == i8_from_value(value),
    {
        match value {
            Value::Int8(Some(x)) => Ok(x),
            Value::UInt8(Some(x)) => Ok(x as i8),
            Value::Int16(Some(x)) => if -128 <= (x as i128) && (x as i128) <= 127 {
                Ok(x as i8)
            } else {
                Err(ConversionError::OutOfRange)
            },
            Value::Int32(Some(x)) => if -128 <= (x as i128) && (x as i128) <= 127 {
                Ok(x as i8)
            } else {
                Err(ConversionError::OutOfRange)
            },
            Value::Int64(Some(x)) => if -128 <= (x as i128) && (x as i128) <= 127 {
                Ok(x as i8)
            } else {
                Err(ConversionError::OutOfRange)
            },
            Value::Unknown(Some(s)) => match parse_signed(s.as_str(), -128, 127) {
                Ok(n) => Ok(n as i8),
                Err(e) => Err(e),
            },
            _ => Err(ConversionError::Incompatible),
        }
    }

    open spec fn extract_readable(s: Seq<char>) -> bool {
        integer_readable(s, true)
    }

    open spec fn extracts(s: Seq<char>, result: Result<i8, ConversionError>, rest: Seq<char>) -> bool {
        match integer_read(s, -128, 127, true) {
            Ok((n, k)) => result == Ok::<i8, ConversionError>(n as i8) && rest == s.skip(k as int),
            Err(e) => result == Err::<i8, ConversionError>(e) && rest == s,
        }
    }

    fn extract(input: &mut &str) -> (r: Result<i8, ConversionError>) {
        match extract_signed(input, -128, 127) {
            Ok(n) => Ok(n as i8),
            Err(e) => Err(e),
        }
    }
}

impl From<i8> for Value {
    fn from(value: i8) -> (r: Value) {
        Value::Int8(Some(value))
    }
}

impl vstd::std_specs::convert::FromSpecImpl<i8> for Value {
    open spec fn obeys_from_spec() -> bool {
        true
    }

    open spec fn from_spec(v: i8) -> Value {
        Value::Int8(Some(v))
    }
}

/// What converting a value to `i16` gives.
pub open spec fn i16_from_value(v: Value) -> Result<i16, ConversionError> {
    match v {
        Value::Int16(Some(x)) => Ok(x),
        Value::Int8(Some(x)) => Ok(x as i16),
        Value::UInt16(Some(x)) => Ok(x as i16),
        Value::UInt8(Some(x)) => Ok(x as i16),
        Value::Int32(Some(x)) => if -32768 <= (x as int) <= 32767 {
            Ok(x as i16)
        } else {
            Err(ConversionError::OutOfRange)
        },
        Value::Int64(Some(x)) => if -32768 <= (x as int) <= 32767 {
            Ok(x as i16)
        } else {
            Err(ConversionError::OutOfRange)
        },
        Value::Unknown(Some(s)) => match integer_parsed(s@, -32768, 32767, true) {
            Ok(n) => Ok(n as i16),
            Err(e) => Err(e),
        },
        _ => Err(ConversionError::Incompatible),
    }
}

impl AsValue for i16 {
    open spec fn converts(value: Value, result: Result<i16, ConversionError>) -> bool {
        result == i16_from_value(value)
    }

    open spec fn spec_empty() -> Value {
        Value::Int16(None)
    }

    open spec fn valued(self, v: Value) -> bool {
        v == Value::Int16(Some(self))
    }

    open spec fn readable(value: Value) -> bool {
        value matches Value::Unknown(Some(s)) ==> integer_readable(s@, true)
    }

    fn as_empty_value() -> (r: Value)
        ensures
            r == Value::Int16(None),
    {
        Value::Int16(None)
    }

    fn as_value(self) -> (r: Value)
        ensures
            r == Value::Int16(Some(self)),
    {
        Value::Int16(Some(self))
    }

    fn try_from_value(value: Value) -> (r: Result<i16, ConversionError>)
        ensures
            r == i16_from_value(value),
    {
        match value {
            Value::Int16(Some(x)) => Ok(x),
            Value::Int8(Some(x)) => Ok(x as i16),
            Value::UInt16(Some(x)) => Ok(x as i16),
            Value::UInt8(Some(x)) => Ok(x as i16),
            Value::Int32(Some(x)) => if -32768 <= (x as i128) && (x as i128) <= 32767 {
                Ok(x as i16)
            } else {
                Err(ConversionError::OutOfRange)
            },
            Value::Int64(Some(x)) => if -32768 <= (x as i128) && (x as i128) <= 32767 {
                Ok(x as i16)
            } else {
                Err(ConversionError::OutOfRange)
            },
            Value::Unknown(Some(s)) => match parse_signed(s.as_str(), -32768, 32767) {
                Ok(n) => Ok(n as i16),
                Err(e) => Err(e),
            },
            _ => Err(ConversionError::Incompatible),
        }
    }

    open spec fn extract_readable(s: Seq<char>) -> bool {
        integer_readable(s, true)
    }

    open spec fn extracts(s: Seq<char>, result: Result<i16, ConversionError>, rest: Seq<char>) -> bool {
        match integer_read(s, -32768, 32767, true) {
            Ok((n, k)) => result == Ok::<i16, ConversionError>(n as i16) && rest == s.skip(k as int),
            Err(e) => result == Err::<i16, ConversionError>(e) && rest == s,
        }
    }

    fn extract(input: &mut &str) -> (r: Result<i16, ConversionError>) {
        match extract_signed(input, -32768, 32767) {
            Ok(n) => Ok(n as i16),
            Err(e) => Err(e),
        }
    }
}

impl From<i16> for Value {
    fn from(value: i16) -> (r: Value) {
        Value::Int16(Some(value))
    }
}

impl vstd::std_specs::convert::FromSpecImpl<i16> for Value {
    open spec fn obeys_from_spec() -> bool {
        true
    }

    open spec fn from_spec(v: i16) -> Value {
        Value::Int16(Some(v))
    }
}

/// What converting a value to `i32` gives.
pub open spec fn i32_from_value(v: Value) -> Result<i32, ConversionError> {
    match v {
        Value::Int32(Some(x)) => Ok(x),
        Value::Int16(Some(x)) => Ok(x as i32),
        Value::Int8(Some(x)) => Ok(x as i32),
        Value::UInt32(Some(x)) => Ok(x as i32),
        Value::UInt16(Some(x)) => Ok(x as i32),
        Value::UInt8(Some(x)) => Ok(x as i32),
        Value::Decimal(Some(d), ..) => match decimal_integer(d, -2147483648, 2147483647) {
            Ok(n) => Ok(n as i32),
            Err(e) => Err(e),
        },
        Value::Int64(Some(x)) => if -2147483648 <= (x as int) <= 2147483647 {
            Ok(x as i32)
        } else {
            Err(ConversionError::OutOfRange)
        },
        Value::Unknown(Some(s)) => match integer_parsed(s@, -2147483648, 2147483647, true) {
            Ok(n) => Ok(n as i32),
            Err(e) => Err(e),
        },
        _ => Err(ConversionError::Incompatible),
    }
}

impl AsValue for i32 {
    open spec fn converts(value: Value, result: Result<i32, ConversionError>) -> bool {
        result == i32_from_value(value)
    }

    open spec fn spec_empty() -> Value {
        Value::Int32(None)
    }

    open spec fn valued(self, v: Value) -> bool {
        v == Value::Int32(Some(self))
    }

    open spec fn readable(value: Value) -> bool {
        value matches Value::Unknown(Some(s)) ==> integer_readable(s@, true)
    }

    fn as_empty_value() -> (r: Value)
        ensures
            r == Value::Int32(None),
    {
        Value::Int32(None)
    }

    fn as_value(self) -> (r: Value)
        ensures
            r == Value::Int32(Some(self)),
    {
        Value::Int32(Some(self))
    }

    fn try_from_value(value: Value) -> (r: Result<i32, ConversionError>)
        ensures
            r == i32_from_value(value),
    {
        match value {
            Value::Int32(Some(x)) => Ok(x),
            Value::Int16(Some(x)) => Ok(x as i32),
            Value::Int8(Some(x)) => Ok(x as i32),
            Value::UInt32(Some(x)) => Ok(x as i32),
            Value::UInt16(Some(x)) => Ok(x as i32),
            Value::UInt8(Some(x)) => Ok(x as i32),
            Value::Decimal(Some(d), ..) => match decimal_integer_value(&d, -2147483648, 2147483647) {
                Ok(n) => Ok(n as i32),
                Err(e) => Err(e),
            },
            Value::Int64(Some(x)) => if -2147483648 <= (x as i128) && (x as i128) <= 2147483647 {
                Ok(x as i32)
            } else {
                Err(ConversionError::OutOfRange)
            },
            Value::Unknown(Some(s)) => match parse_signed(s.as_str(), -2147483648, 2147483647) {
                Ok(n) => Ok(n as i32),
                Err(e) => Err(e),
            },
            _ => Err(ConversionError::Incompatible),
        }
    }

    open spec fn extract_readable(s: Seq<char>) -> bool {
        integer_readable(s, true)
    }

    open spec fn extracts(s: Seq<char>, result: Result<i32, ConversionError>, rest: Seq<char>) -> bool {
        match integer_read(s, -2147483648, 2147483647, true) {
            Ok((n, k)) => result == Ok::<i32, ConversionError>(n as i32) && rest == s.skip(k as int),
            Err(e) => result == Err::<i32, ConversionError>(e) && rest == s,
        }
    }

    fn extract(input: &mut &str) -> (r: Result<i32, ConversionError>) {
        match extract_signed(input, -2147483648, 2147483647) {
            Ok(n) => Ok(n as i32),
            Err(e) => Err(e),
        }
    }
}

impl From<i32> for Value {
    fn from(value: i32) -> (r: Value) {
        Value::Int32(Some(value))
    }
}

impl vstd::std_specs::convert::FromSpecImpl<i32> for Value {
    open spec fn obeys_from_spec() -> bool {
        true
    }

    open spec fn from_spec(v: i32) -> Value {
        Value::Int32(Some(v))
    }
}

/// What converting a value to `i64` gives.
pub open spec fn i64_from_value(v: Value) -> Result<i64, ConversionError> {
    match v {
        Value::Int64(Some(x)) => Ok(x),
        Value::Int32(Some(x)) => Ok(x as i64),
        Value::Int16(Some(x)) => Ok(x as i64),
        Value::Int8(Some(x)) => Ok(x as i64),
        Value::UInt64(Some(x)) => Ok(x as i64),
        Value::UInt32(Some(x)) => Ok(x as i64),
        Value::UInt16(Some(x)) => Ok(x as i64),
        Value::UInt8(Some(x)) => Ok(x as i64),
        Value::Decimal(Some(d), ..) => match decimal_integer(d, -9223372036854775808, 9223372036854775807) {
            Ok(n) => Ok(n as i64),
            Err(e) => Err(e),
        },
        Value::Unknown(Some(s)) => match integer_parsed(s@, -9223372036854775808, 9223372036854775807, true) {
            Ok(n) => Ok(n as i64),
            Err(e) => Err(e),
        },
        _ => Err(ConversionError::Incompatible),
    }
}

impl AsValue for i64 {
    open spec fn converts(value: Value, result: Result<i64, ConversionError>) -> bool {
        result == i64_from_value(value)
    }

    open spec fn spec_empty() -> Value {
        Value::Int64(None)
    }

    open spec fn valued(self, v: Value) -> bool {
        v == Value::Int64(Some(self))
    }

    open spec fn readable(value: Value) -> bool {
        value matches Value::Unknown(Some(s)) ==> integer_readable(s@, true)
    }

    fn as_empty_value() -> (r: Value)
        ensures
            r == Value::Int64(None),
    {
        Value::Int64(None)
    }

    fn as_value(self) -> (r: Value)
        ensures
            r == Value::Int64(Some(self)),
    {
        Value::Int64(Some(self))
    }

    fn try_from_value(value: Value) -> (r: Result<i64, ConversionError>)
        ensures
            r == i64_from_value(value),
    {
        match value {
            Value::Int64(Some(x)) => Ok(x),
            Value::Int32(Some(x)) => Ok(x as i64),
            Value::Int16(Some(x)) => Ok(x as i64),
            Value::Int8(Some(x)) => Ok(x as i64),
            Value::UInt64(Some(x)) => Ok(x as i64),
            Value::UInt32(Some(x)) => Ok(x as i64),
            Value::UInt16(Some(x)) => Ok(x as i64),
            Value::UInt8(Some(x)) => Ok(x as i64),
            Value::Decimal(Some(d), ..) => match decimal_integer_value(&d, -9223372036854775808, 9223372036854775807) {
                Ok(n) => Ok(n as i64),
                Err(e) => Err(e),
            },
            Value::Unknown(Some(s)) => match parse_signed(s.as_str(), -9223372036854775808, 9223372036854775807) {
                Ok(n) => Ok(n as i64),
                Err(e) => Err(e),
            },
            _ => Err(ConversionError::Incompatible),
        }
    }

    open spec fn extract_readable(s: Seq<char>) -> bool {
        integer_readable(s, true)
    }

    open spec fn extracts(s: Seq<char>, result: Result<i64, ConversionError>, rest: Seq<char>) -> bool {
        match integer_read(s, -9223372036854775808, 9223372036854775807, true) {
            Ok((n, k)) => result == Ok::<i64, ConversionError>(n as i64) && rest == s.skip(k as int),
            Err(e) => result == Err::<i64, ConversionError>(e) && rest == s,
        }
    }

    fn extract(input: &mut &str) -> (r: Result<i64, ConversionError>) {
        match extract_signed(input, -9223372036854775808, 9223372036854775807) {
            Ok(n) => Ok(n as i64),
            Err(e) => Err(e),
        }
    }
}

impl From<i64> for Value {
    fn from(value: i64) -> (r: Value) {
        Value::Int64(Some(value))
    }
}

impl vstd::std_specs::convert::FromSpecImpl<i64> for Value {
    open spec fn obeys_from_spec() -> bool {
        true
    }

    open spec fn from_spec(v: i64) -> Value {
        Value::Int64(Some(v))
    }
}

/// What converting a value to `i128` gives.
pub open spec fn i128_from_value(v: Value) -> Result<i128, ConversionError> {
    match v {
        Value::Int128(Some(x)) => Ok(x),
        Value::Int64(Some(x)) => Ok(x as i128),
        Value::Int32(Some(x)) => Ok(x as i128),
        Value::Int16(Some(x)) => Ok(x as i128),
        Value::Int8(Some(x)) => Ok(x as i128),
        Value::UInt128(Some(x)) => Ok(x as i128),
        Value::UInt64(Some(x)) => Ok(x as i128),
        Value::UInt32(Some(x)) => Ok(x as i128),
        Value::UInt16(Some(x)) => Ok(x as i128),
        Value::UInt8(Some(x)) => Ok(x as i128),
        Value::Decimal(Some(d), ..) => match decimal_integer(d, -170141183460469231731687303715884105728, 170141183460469231731687303715884105727) {
            Ok(n) => Ok(n as i128),
            Err(e) => Err(e),
        },
        Value::Unknown(Some(s)) => match integer_parsed(s@, -170141183460469231731687303715884105728, 170141183460469231731687303715884105727, true) {
            Ok(n) => Ok(n as i128),
            Err(e) => Err(e),
        },
        _ => Err(ConversionError::Incompatible),
    }
}

impl AsValue for i128 {
    open spec fn converts(value: Value, result: Result<i128, ConversionError>) -> bool {
        result == i128_from_value(value)
    }

    open spec fn spec_empty() -> Value {
        Value::Int128(None)
    }

    open spec fn valued(self, v: Value) -> bool {
        v == Value::Int128(Some(self))
    }

    open spec fn readable(value: Value) -> bool {
        value matches Value::Unknown(Some(s)) ==> integer_readable(s@, true)
    }

    fn as_empty_value() -> (r: Value)
        ensures
            r == Value::Int128(None),
    {
        Value::Int128(None)
    }

    fn as_value(self) -> (r: Value)
        ensures
            r == Value::Int128(Some(self)),
    {
        Value::Int128(Some(self))
    }

    fn try_from_value(value: Value) -> (r: Result<i128, ConversionError>)
        ensures
            r == i128_from_value(value),
    {
        match value {
            Value::Int128(Some(x)) => Ok(x),
            Value::Int64(Some(x)) => Ok(x as i128),
            Value::Int32(Some(x)) => Ok(x as i128),
            Value::Int16(Some(x)) => Ok(x as i128),
            Value::Int8(Some(x)) => Ok(x as i128),
            Value::UInt128(Some(x)) => Ok(x as i128),
            Value::UInt64(Some(x)) => Ok(x as i128),
            Value::UInt32(Some(x)) => Ok(x as i128),
            Value::UInt16(Some(x)) => Ok(x as i128),
            Value::UInt8(Some(x)) => Ok(x as i128),
            Value::Decimal(Some(d), ..) => match decimal_integer_value(&d, -170141183460469231731687303715884105728, 170141183460469231731687303715884105727) {
                Ok(n) => Ok(n as i128),
                Err(e) => Err(e),
            },
            Value::Unknown(Some(s)) => match parse_signed(s.as_str(), -170141183460469231731687303715884105728, 170141183460469231731687303715884105727) {
                Ok(n) => Ok(n as i128),
                Err(e) => Err(e),
            },
            _ => Err(ConversionError::Incompatible),
        }
    }

    open spec fn extract_readable(s: Seq<char>) -> bool {
        integer_readable(s, true)
    }

    open spec fn extracts(s: Seq<char>, result: Result<i128, ConversionError>, rest: Seq<char>) -> bool {
        match integer_read(s, -170141183460469231731687303715884105728, 170141183460469231731687303715884105727, true) {
            Ok((n, k)) => result == Ok::<i128, ConversionError>(n as i128) && rest == s.skip(k as int),
            Err(e) => result == Err::<i128, ConversionError>(e) && rest == s,
        }
    }

    fn extract(input: &mut &str) -> (r: Result<i128, ConversionError>) {
        match extract_signed(input, -170141183460469231731687303715884105728, 170141183460469231731687303715884105727) {
            Ok(n) => Ok(n as i128),
            Err(e) => Err(e),
        }
    }
}

impl From<i128> for Value {
    fn from(value: i128) -> (r: Value) {
        Value::Int128(Some(value))
    }
}

impl vstd::std_specs::convert::FromSpecImpl<i128> for Value {
    open spec fn obeys_from_spec() -> bool {
        true
    }

    open spec fn from_spec(v: i128) -> Value {
        Value::Int128(Some(v))
    }
}

/// What converting a value to `u8` gives.
pub open spec fn u8_from_value(v: Value) -> Result<u8, ConversionError> {
    match v {
        Value::UInt8(Some(x)) => Ok(x),
        Value::Int16(Some(x)) => if 0 <= (x as int) <= 255 {
            Ok(x as u8)
        } else {
            Err(ConversionError::OutOfRange)
        },
        Value::Int32(Some(x)) => if 0 <= (x as int) <= 255 {
            Ok(x as u8)
        } else {
            Err(ConversionError::OutOfRange)
        },
        Value::Int64(Some(x)) => if 0 <= (x as int) <= 255 {
            Ok(x as u8)
        } else {
            Err(ConversionError::OutOfRange)
        },
        Value::Unknown(Some(s)) => match integer_parsed(s@, 0, 255, false) {
            Ok(n) => Ok(n as u8),
            Err(e) => Err(e),
        },
        _ => Err(ConversionError::Incompatible),
    }
}

impl AsValue for u8 {
    open spec fn converts(value: Value, result: Result<u8, ConversionError>) -> bool {
        result == u8_from_value(value)
    }

    open spec fn spec_empty() -> Value {
        Value::UInt8(None)
    }

    open spec fn valued(self, v: Value) -> bool {
        v == Value::UInt8(Some(self))
    }

    open spec fn readable(value: Value) -> bool {
        value matches Value::Unknown(Some(s)) ==> integer_readable(s@, false)
    }

    fn as_empty_value() -> (r: Value)
        ensures
            r == Value::UInt8(None),
    {
        Value::UInt8(None)
    }

    fn as_value(self) -> (r: Value)
        ensures
            r == Value::UInt8(Some(self)),
    {
        Value::UInt8(Some(self))
    }

    fn try_from_value(value: Value) -> (r: Result<u8, ConversionError>)
        ensures
            r == u8_from_value(value),
    {
        match value {
            Value::UInt8(Some(x)) => Ok(x),
            Value::Int16(Some(x)) => if x >= 0 && (x as u128) <= 255 {
                Ok(x as u8)
            } else {
                Err(ConversionError::OutOfRange)
            },
            Value::Int32(Some(x)) => if x >= 0 && (x as u128) <= 255 {
                Ok(x as u8)
            } else {
                Err(ConversionError::OutOfRange)
            },
            Value::Int64(Some(x)) => if x >= 0 && (x as u128) <= 255 {
                Ok(x as u8)
            } else {
                Err(ConversionError::OutOfRange)
            },
            Value::Unknown(Some(s)) => match parse_unsigned_integer(s.as_str(), 255) {
                Ok(n) => Ok(n as u8),
                Err(e) => Err(e),
            },
            _ => Err(ConversionError::Incompatible),
        }
    }

    open spec fn extract_readable(s: Seq<char>) -> bool {
        integer_readable(s, false)
    }

    open spec fn extracts(s: Seq<char>, result: Result<u8, ConversionError>, rest: Seq<char>) -> bool {
        match integer_read(s, 0, 255, false) {
            Ok((n, k)) => result == Ok::<u8, ConversionError>(n as u8) && rest == s.skip(k as int),
            Err(e) => result == Err::<u8, ConversionError>(e) && rest == s,
        }
    }

    fn extract(input: &mut &str) -> (r: Result<u8, ConversionError>) {
        match extract_unsigned(input, 255) {
            Ok(n) => Ok(n as u8),
            Err(e) => Err(e),
        }
    }
}

impl From<u8> for Value {
    fn from(value: u8) -> (r: Value) {
        Value::UInt8(Some(value))
    }
}

impl vstd::std_specs::convert::FromSpecImpl<u8> for Value {
    open spec fn obeys_from_spec() -> bool {
        true
    }

    open spec fn from_spec(v: u8) -> Value {
        Value::UInt8(Some(v))
    }
}

/// What converting a value to `u16` gives.
pub open spec fn u16_from_value(v: Value) -> Result<u16, ConversionError> {
    match v {
        Value::UInt16(Some(x)) => Ok(x),
        Value::UInt8(Some(x)) => Ok(x as u16),
        Value::Int32(Some(x)) => if 0 <= (x as int) <= 65535 {
            Ok(x as u16)
        } else {
            Err(ConversionError::OutOfRange)
        },
        Value::Int64(Some(x)) => if 0 <= (x as int) <= 65535 {
            Ok(x as u16)
        } else {
            Err(ConversionError::OutOfRange)
        },
        Value::Unknown(Some(s)) => match integer_parsed(s@, 0, 65535, false) {
            Ok(n) => Ok(n as u16),
            Err(e) => Err(e),
        },
        _ => Err(ConversionError::Incompatible),
    }
}

impl AsValue for u16 {
    open spec fn converts(value: Value, result: Result<u16, ConversionError>) -> bool {
        result == u16_from_value(value)
    }

    open spec fn spec_empty() -> Value {
        Value::UInt16(None)
    }

    open spec fn valued(self, v: Value) -> bool {
        v == Value::UInt16(Some(self))
    }

    open spec fn readable(value: Value) -> bool {
        value matches Value::Unknown(Some(s)) ==> integer_readable(s@, false)
    }

    fn as_empty_value() -> (r: Value)
        ensures
            r == Value::UInt16(None),
    {
        Value::UInt16(None)
    }

    fn as_value(self) -> (r: Value)
        ensures
            r == Value::UInt16(Some(self)),
    {
        Value::UInt16(Some(self))
    }

    fn try_from_value(value: Value) -> (r: Result<u16, ConversionError>)
        ensures
            r == u16_from_value(value),
    {
        match value {
            Value::UInt16(Some(x)) => Ok(x),
            Value::UInt8(Some(x)) => Ok(x as u16),
            Value::Int32(Some(x)) => if x >= 0 && (x as u128) <= 65535 {
                Ok(x as u16)
            } else {
                Err(ConversionError::OutOfRange)
            },
            Value::Int64(Some(x)) => if x >= 0 && (x as u128) <= 65535 {
                Ok(x as u16)
            } else {
                Err(ConversionError::OutOfRange)
            },
            Value::Unknown(Some(s)) => match parse_unsigned_integer(s.as_str(), 65535) {
                Ok(n) => Ok(n as u16),
                Err(e) => Err(e),
            },
            _ => Err(ConversionError::Incompatible),
        }
    }

    open spec fn extract_readable(s: Seq<char>) -> bool {
        integer_readable(s, false)
    }

    open spec fn extracts(s: Seq<char>, result: Result<u16, ConversionError>, rest: Seq<char>) -> bool {
        match integer_read(s, 0, 65535, false) {
            Ok((n, k)) => result == Ok::<u16, ConversionError>(n as u16) && rest == s.skip(k as int),
            Err(e) => result == Err::<u16, ConversionError>(e) && rest == s,
        }
    }

    fn extract(input: &mut &str) -> (r: Result<u16, ConversionError>) {
        match extract_unsigned(input, 65535) {
            Ok(n) => Ok(n as u16),
            Err(e) => Err(e),
        }
    }
}

impl From<u16> for Value {
    fn from(value: u16) -> (r: Value) {
        Value::UInt16(Some(value))
    }
}

impl vstd::std_specs::convert::FromSpecImpl<u16> for Value {
    open spec fn obeys_from_spec() -> bool {
        true
    }

    open spec fn from_spec(v: u16) -> Value {
        Value::UInt16(Some(v))
    }
}

/// What converting a value to `u32` gives.
pub open spec fn u32_from_value(v: Value) -> Result<u32, ConversionError> {
    match v {
        Value::UInt32(Some(x)) => Ok(x),
        Value::UInt16(Some(x)) => Ok(x as u32),
        Value::UInt8(Some(x)) => Ok(x as u32),
        Value::Int32(Some(x)) => if 0 <= (x as int) <= 4294967295 {
            Ok(x as u32)
        } else {
            Err(ConversionError::OutOfRange)
        },
        Value::Int64(Some(x)) => if 0 <= (x as int) <= 4294967295 {
            Ok(x as u32)
        } else {
            Err(ConversionError::OutOfRange)
        },
        Value::Unknown(Some(s)) => match integer_parsed(s@, 0, 4294967295, false) {
            Ok(n) => Ok(n as u32),
            Err(e) => Err(e),
        },
        _ => Err(ConversionError::Incompatible),
    }
}

impl AsValue for u32 {
    open spec fn converts(value: Value, result: Result<u32, ConversionError>) -> bool {
        result == u32_from_value(value)
    }

    open spec fn spec_empty() -> Value {
        Value::UInt32(None)
    }

    open spec fn valued(self, v: Value) -> bool {
        v == Value::UInt32(Some(self))
    }

    open spec fn readable(value: Value) -> bool {
        value matches Value::Unknown(Some(s)) ==> integer_readable(s@, false)
    }

    fn as_empty_value() -> (r: Value)
        ensures
            r == Value::UInt32(None),
    {
        Value::UInt32(None)
    }

    fn as_value(self) -> (r: Value)
        ensures
            r == Value::UInt32(Some(self)),
    {
        Value::UInt32(Some(self))
    }

    fn try_from_value(value: Value) -> (r: Result<u32, ConversionError>)
        ensures
            r == u32_from_value(value),
    {
        match value {
            Value::UInt32(Some(x)) => Ok(x),
            Value::UInt16(Some(x)) => Ok(x as u32),
            Value::UInt8(Some(x)) => Ok(x as u32),
            Value::Int32(Some(x)) => if x >= 0 && (x as u128) <= 4294967295 {
                Ok(x as u32)
            } else {
                Err(ConversionError::OutOfRange)
            },
            Value::Int64(Some(x)) => if x >= 0 && (x as u128) <= 4294967295 {
                Ok(x as u32)
            } else {
                Err(ConversionError::OutOfRange)
            },
            Value::Unknown(Some(s)) => match parse_unsigned_integer(s.as_str(), 4294967295) {
                Ok(n) => Ok(n as u32),
                Err(e) => Err(e),
            },
            _ => Err(ConversionError::Incompatible),
        }
    }

    open spec fn extract_readable(s: Seq<char>) -> bool {
        integer_readable(s, false)
    }

    open spec fn extracts(s: Seq<char>, result: Result<u32, ConversionError>, rest: Seq<char>) -> bool {
        match integer_read(s, 0, 4294967295, false) {
            Ok((n, k)) => result == Ok::<u32, ConversionError>(n as u32) && rest == s.skip(k as int),
            Err(e) => result == Err::<u32, ConversionError>(e) && rest == s,
        }
    }

    fn extract(input: &mut &str) -> (r: Result<u32, ConversionError>) {
        match extract_unsigned(input, 4294967295) {
            Ok(n) => Ok(n as u32),
            Err(e) => Err(e),
        }
    }
}

impl From<u32> for Value {
    fn from(value: u32) -> (r: Value) {
        Value::UInt32(Some(value))
    }
}

impl vstd::std_specs::convert::FromSpecImpl<u32> for Value {
    open spec fn obeys_from_spec() -> bool {
        true
    }

    open spec fn from_spec(v: u32) -> Value {
        Value::UInt32(Some(v))
    }
}

/// What converting a value to `u64` gives.
pub open spec fn u64_from_value(v: Value) -> Result<u64, ConversionError> {
    match v {
        Value::UInt64(Some(x)) => Ok(x),
        Value::UInt32(Some(x)) => Ok(x as u64),
        Value::UInt16(Some(x)) => Ok(x as u64),
        Value::UInt8(Some(x)) => Ok(x as u64),
        Value::Decimal(Some(d), ..) => match decimal_integer(d, 0, 18446744073709551615) {
            Ok(n) => Ok(n as u64),
            Err(e) => Err(e),
        },
        Value::Int32(Some(x)) => if 0 <= (x as int) <= 18446744073709551615 {
            Ok(x as u64)
        } else {
            Err(ConversionError::OutOfRange)
        },
        Value::Int64(Some(x)) => if 0 <= (x as int) <= 18446744073709551615 {
            Ok(x as u64)
        } else {
            Err(ConversionError::OutOfRange)
        },
        Value::Unknown(Some(s)) => match integer_parsed(s@, 0, 18446744073709551615, false) {
            Ok(n) => Ok(n as u64),
            Err(e) => Err(e),
        },
        _ => Err(ConversionError::Incompatible),
    }
}

impl AsValue for u64 {
    open spec fn converts(value: Value, result: Result<u64, ConversionError>) -> bool {
        result == u64_from_value(value)
    }

    open spec fn spec_empty() -> Value {
        Value::UInt64(None)
    }

    open spec fn valued(self, v: Value) -> bool {
        v == Value::UInt64(Some(self))
    }

    open spec fn readable(value: Value) -> bool {
        value matches Value::Unknown(Some(s)) ==> integer_readable(s@, false)
    }

    fn as_empty_value() -> (r: Value)
        ensures
            r == Value::UInt64(None),
    {
        Value::UInt64(None)
    }

    fn as_value(self) -> (r: Value)
        ensures
            r == Value::UInt64(Some(self)),
    {
        Value::UInt64(Some(self))
    }

    fn try_from_value(value: Value) -> (r: Result<u64, ConversionError>)
        ensures
            r == u64_from_value(value),
    {
        match value {
            Value::UInt64(Some(x)) => Ok(x),
            Value::UInt32(Some(x)) => Ok(x as u64),
            Value::UInt16(Some(x)) => Ok(x as u64),
            Value::UInt8(Some(x)) => Ok(x as u64),
            Value::Decimal(Some(d), ..) => match decimal_integer_value(&d, 0, 18446744073709551615) {
                Ok(n) => Ok(n as u64),
                Err(e) => Err(e),
            },
            Value::Int32(Some(x)) => if x >= 0 && (x as u128) <= 18446744073709551615 {
                Ok(x as u64)
            } else {
                Err(ConversionError::OutOfRange)
            },
            Value::Int64(Some(x)) => if x >= 0 && (x as u128) <= 18446744073709551615 {
                Ok(x as u64)
            } else {
                Err(ConversionError::OutOfRange)
            },
            Value::Unknown(Some(s)) => match parse_unsigned_integer(s.as_str(), 18446744073709551615) {
                Ok(n) => Ok(n as u64),
                Err(e) => Err(e),
            },
            _ => Err(ConversionError::Incompatible),
        }
    }

    open spec fn extract_readable(s: Seq<char>) -> bool {
        integer_readable(s, false)
    }

    open spec fn extracts(s: Seq<char>, result: Result<u64, ConversionError>, rest: Seq<char>) -> bool {
        match integer_read(s, 0, 18446744073709551615, false) {
            Ok((n, k)) => result == Ok::<u64, ConversionError>(n as u64) && rest == s.skip(k as int),
            Err(e) => result == Err::<u64, ConversionError>(e) && rest == s,
        }
    }

    fn extract(input: &mut &str) -> (r: Result<u64, ConversionError>) {
        match extract_unsigned(input, 18446744073709551615) {
            Ok(n) => Ok(n as u64),
            Err(e) => Err(e),
        }
    }
}

impl From<u64> for Value {
    fn from(value: u64) -> (r: Value) {
        Value::UInt64(Some(value))
    }
}

impl vstd::std_specs::convert::FromSpecImpl<u64> for Value {
    open spec fn obeys_from_spec() -> bool {
        true
    }

    open spec fn from_spec(v: u64) -> Value {
        Value::UInt64(Some(v))
    }
}

/// What converting a value to `u128` gives.
pub open spec fn u128_from_value(v: Value) -> Result<u128, ConversionError> {
    match v {
        Value::UInt128(Some(x)) => Ok(x),
        Value::UInt64(Some(x)) => Ok(x as u128),
        Value::UInt32(Some(x)) => Ok(x as u128),
        Value::UInt16(Some(x)) => Ok(x as u128),
        Value::UInt8(Some(x)) => Ok(x as u128),
        Value::Decimal(Some(d), ..) => match decimal_integer(d, 0, 340282366920938463463374607431768211455) {
            Ok(n) => Ok(n as u128),
            Err(e) => Err(e),
        },
        Value::Int32(Some(x)) => if 0 <= (x as int) <= 340282366920938463463374607431768211455 {
            Ok(x as u128)
        } else {
            Err(ConversionError::OutOfRange)
        },
        Value::Int64(Some(x)) => if 0 <= (x as int) <= 340282366920938463463374607431768211455 {
            Ok(x as u128)
        } else {
            Err(ConversionError::OutOfRange)
        },
        Value::Unknown(Some(s)) => match integer_parsed(s@, 0, 340282366920938463463374607431768211455, false) {
            Ok(n) => Ok(n as u128),
            Err(e) => Err(e),
        },
        _ => Err(ConversionError::Incompatible),
    }
}

impl AsValue for u128 {
    open spec fn converts(value: Value, result: Result<u128, ConversionError>) -> bool {
        result == u128_from_value(value)
    }

    open spec fn spec_empty() -> Value {
        Value::UInt128(None)
    }

    open spec fn valued(self, v: Value) -> bool {
        v == Value::UInt128(Some(self))
    }

    open spec fn readable(value: Value) -> bool {
        value matches Value::Unknown(Some(s)) ==> integer_readable(s@, false)
    }

    fn as_empty_value() -> (r: Value)
        ensures
            r == Value::UInt128(None),
    {
        Value::UInt128(None)
    }

    fn as_value(self) -> (r: Value)
        ensures
            r == Value::UInt128(Some(self)),
    {
        Value::UInt128(Some(self))
    }

    fn try_from_value(value: Value) -> (r: Result<u128, ConversionError>)
        ensures
            r == u128_from_value(value),
    {
        match value {
            Value::UInt128(Some(x)) => Ok(x),
            Value::UInt64(Some(x)) => Ok(x as u128),
            Value::UInt32(Some(x)) => Ok(x as u128),
            Value::UInt16(Some(x)) => Ok(x as u128),
            Value::UInt8(Some(x)) => Ok(x as u128),
            Value::Decimal(Some(d), ..) => match decimal_integer_value(&d, 0, 340282366920938463463374607431768211455) {
                Ok(n) => Ok(n as u128),
                Err(e) => Err(e),
            },
            Value::Int32(Some(x)) => if x >= 0 && (x as u128) <= 340282366920938463463374607431768211455 {
                Ok(x as u128)
            } else {
                Err(ConversionError::OutOfRange)
            },
            Value::Int64(Some(x)) => if x >= 0 && (x as u128) <= 340282366920938463463374607431768211455 {
                Ok(x as u128)
            } else {
                Err(ConversionError::OutOfRange)
            },
            Value::Unknown(Some(s)) => match parse_unsigned_integer(s.as_str(), 340282366920938463463374607431768211455) {
                Ok(n) => Ok(n as u128),
                Err(e) => Err(e),
            },
            _ => Err(ConversionError::Incompatible),
        }
    }

    open spec fn extract_readable(s: Seq<char>) -> bool {
        integer_readable(s, false)
    }

    open spec fn extracts(s: Seq<char>, result: Result<u128, ConversionError>, rest: Seq<char>) -> bool {
        match integer_read(s, 0, 340282366920938463463374607431768211455, false) {
            Ok((n, k)) => result == Ok::<u128, ConversionError>(n as u128) && rest == s.skip(k as int),
            Err(e) => result == Err::<u128, ConversionError>(e) && rest == s,
        }
    }

    fn extract(input: &mut &str) -> (r: Result<u128, ConversionError>) {
        match extract_unsigned(input, 340282366920938463463374607431768211455) {
            Ok(n) => Ok(n as u128),
            Err(e) => Err(e),
        }
    }
}

impl From<u128> for Value {
    fn from(value: u128) -> (r: Value) {
        Value::UInt128(Some(value))
    }
}

impl vstd::std_specs::convert::FromSpecImpl<u128> for Value {
    open spec fn obeys_from_spec() -> bool {
        true
    }

    open spec fn from_spec(v: u128) -> Value {
        Value::UInt128(Some(v))
    }
}

/// `char::is_alphabetic`: whether the character has the Unicode `Alphabetic`
/// property.
pub uninterp spec fn alphabetic(c: char) -> bool;

/// `char::is_alphabetic`, see [`alphabetic`].
#[verifier::external_body]
fn char_is_alphabetic(c: char) -> (r: bool)
    ensures
        r == alphabetic(c),
{
    c.is_alphabetic()
}

/// The character with ASCII capitals made small.
pub open spec fn ascii_lower(c: char) -> char {
    if 'A' <= c <= 'Z' {
        ((c as u32) + 32) as char
    } else {
        c
    }
}

/// Whether two texts are equal once ASCII capitals are made small.
pub open spec fn eq_ignore_case(a: Seq<char>, b: Seq<char>) -> bool {
    a.len() == b.len() && forall|i: int| 0 <= i < a.len() ==> #[trigger] ascii_lower(a[i])
        == ascii_lower(b[i])
}

fn lower(c: char) -> (r: char)
    ensures
        r == ascii_lower(c),
{
    if 'A' <= c && c <= 'Z' {
        ((c as u8) + 32) as char
    } else {
        c
    }
}

/// Whether two texts are equal once ASCII capitals are made small.
pub fn eq_ignore_ascii_case(a: &str, b: &str) -> (r: bool)
    ensures
        r == eq_ignore_case(a@, b@),
{
    let n = a.unicode_len();
    if n != b.unicode_len() {
        return false;
    }
    let mut i: usize = 0;
    while i < n
        invariant
            i <= n,
            n == a@.len(),
            n == b@.len(),
            forall|j: int| 0 <= j < i ==> #[trigger] ascii_lower(a@[j]) == ascii_lower(b@[j]),
        decreases n - i,
    {
        if lower(a.get_char(i)) != lower(b.get_char(i)) {
            return false;
        }
        i = i + 1;
    }
    true
}

/// Whether a boolean's word may hold the character: letters and `_`.
pub open spec fn word_char(c: char) -> bool {
    alphabetic(c) || c == '_'
}

/// Whether a boolean's word may hold the character.
fn is_word_char(c: char) -> (r: bool)
    ensures
        r == word_char(c),
{
    char_is_alphabetic(c) || c == '_'
}

/// The number of word characters the text starts with.
pub open spec fn word_len(s: Seq<char>) -> nat
    decreases s.len(),
{
    if s.len() > 0 && word_char(s[0]) {
        1 + word_len(s.drop_first())
    } else {
        0
    }
}

proof fn lemma_word_len(s: Seq<char>, k: int)
    requires
        0 <= k <= s.len(),
        forall|i: int| 0 <= i < k ==> word_char(#[trigger] s[i]),
        k < s.len() ==> !word_char(s[k]),
    ensures
        word_len(s) == k,
    decreases k,
{
    if k > 0 {
        assert forall|i: int| 0 <= i < k - 1 implies word_char(#[trigger] s.drop_first()[i]) by {
            assert(s.drop_first()[i] == s[i + 1]);
        }
        if k < s.len() {
            assert(s.drop_first()[k - 1] == s[k]);
        }
        lemma_word_len(s.drop_first(), k - 1);
    }
}

/// Reading a boolean from the start of the text: a word of letters and
/// underscores that is `true` or `t`, or `false` or `f`, in any case.
pub open spec fn bool_read(s: Seq<char>) -> Result<(bool, nat), ConversionError> {
    let w = s.take(word_len(s) as int);
    if eq_ignore_case(w, "true"@) || eq_ignore_case(w, "t"@) {
        Ok((true, word_len(s)))
    } else if eq_ignore_case(w, "false"@) || eq_ignore_case(w, "f"@) {
        Ok((false, word_len(s)))
    } else {
        Err(ConversionError::Unparsable)
    }
}

/// Reads a boolean from the start of `input`; on success `input` is left
/// after its word, otherwise unchanged.
pub fn extract_bool(input: &mut &str) -> (r: Result<bool, ConversionError>)
    ensures
        match bool_read(old(input)@) {
            Ok((b, k)) => r == Ok::<bool, ConversionError>(b) && final(input)@ == old(input)@.skip(
                k as int,
            ),
            Err(e) => r == Err::<bool, ConversionError>(e) && *final(input) == *old(input),
        },
        bool_read(old(input)@) matches Ok((b, k)) ==> k <= old(input)@.len(),
{
    let mut value: &str = *input;
    let word = consume_while(&mut value, is_word_char);
    proof {
        lemma_word_len(input@, word@.len() as int);
    }
    if eq_ignore_ascii_case(word, "true") || eq_ignore_ascii_case(word, "t") {
        *input = value;
        Ok(true)
    } else if eq_ignore_ascii_case(word, "false") || eq_ignore_ascii_case(word, "f") {
        *input = value;
        Ok(false)
    } else {
        Err(ConversionError::Unparsable)
    }
}

/// Reading a boolean from the whole text.
pub open spec fn bool_parsed(s: Seq<char>) -> Result<bool, ConversionError> {
    match bool_read(s) {
        Ok((b, k)) => if k == s.len() {
            Ok(b)
        } else {
            Err(ConversionError::TrailingInput)
        },
        Err(e) => Err(e),
    }
}

/// What converting a value to `bool` gives: numbers are true unless zero.
pub open spec fn bool_from_value(v: Value) -> Result<bool, ConversionError> {
    match v {
        Value::Boolean(Some(b)) => Ok(b),
        Value::Int8(Some(x)) => Ok(x != 0),
        Value::Int16(Some(x)) => Ok(x != 0),
        Value::Int32(Some(x)) => Ok(x != 0),
        Value::Int64(Some(x)) => Ok(x != 0),
        Value::Int128(Some(x)) => Ok(x != 0),
        Value::UInt8(Some(x)) => Ok(x != 0),
        Value::UInt16(Some(x)) => Ok(x != 0),
        Value::UInt32(Some(x)) => Ok(x != 0),
        Value::UInt64(Some(x)) => Ok(x != 0),
        Value::UInt128(Some(x)) => Ok(x != 0),
        Value::Unknown(Some(s)) => bool_parsed(s@),
        _ => Err(ConversionError::Incompatible),
    }
}

impl AsValue for bool {
    open spec fn converts(value: Value, result: Result<bool, ConversionError>) -> bool {
        result == bool_from_value(value)
    }

    open spec fn spec_empty() -> Value {
        Value::Boolean(None)
    }

    open spec fn valued(self, v: Value) -> bool {
        v == Value::Boolean(Some(self))
    }

    open spec fn readable(value: Value) -> bool {
        true
    }

    fn as_empty_value() -> (r: Value)
        ensures
            r == Value::Boolean(None),
    {
        Value::Boolean(None)
    }

    fn as_value(self) -> (r: Value)
        ensures
            r == Value::Boolean(Some(self)),
    {
        Value::Boolean(Some(self))
    }

    fn try_from_value(value: Value) -> (r: Result<bool, ConversionError>)
        ensures
            r == bool_from_value(value),
    {
        match value {
            Value::Boolean(Some(b)) => Ok(b),
            Value::Int8(Some(x)) => Ok(x != 0),
            Value::Int16(Some(x)) => Ok(x != 0),
            Value::Int32(Some(x)) => Ok(x != 0),
            Value::Int64(Some(x)) => Ok(x != 0),
            Value::Int128(Some(x)) => Ok(x != 0),
            Value::UInt8(Some(x)) => Ok(x != 0),
            Value::UInt16(Some(x)) => Ok(x != 0),
            Value::UInt32(Some(x)) => Ok(x != 0),
            Value::UInt64(Some(x)) => Ok(x != 0),
            Value::UInt128(Some(x)) => Ok(x != 0),
            Value::Unknown(Some(s)) => {
                let mut input = s.as_str();
                match extract_bool(&mut input) {
                    Ok(b) => if input.is_empty() {
                        Ok(b)
                    } else {
                        Err(ConversionError::TrailingInput)
                    },
                    Err(e) => Err(e),
                }
            },
            _ => Err(ConversionError::Incompatible),
        }
    }

    open spec fn extract_readable(s: Seq<char>) -> bool {
        true
    }

    open spec fn extracts(s: Seq<char>, result: Result<bool, ConversionError>, rest: Seq<char>) -> bool {
        match bool_read(s) {
            Ok((b, k)) => result == Ok::<bool, ConversionError>(b) && rest == s.skip(k as int),
            Err(e) => result == Err::<bool, ConversionError>(e) && rest == s,
        }
    }

    fn extract(input: &mut &str) -> (r: Result<bool, ConversionError>) {
        extract_bool(input)
    }
}

impl From<bool> for Value {
    fn from(value: bool) -> (r: Value) {
        Value::Boolean(Some(value))
    }
}

impl vstd::std_specs::convert::FromSpecImpl<bool> for Value {
    open spec fn obeys_from_spec() -> bool {
        true
    }

    open spec fn from_spec(v: bool) -> Value {
        Value::Boolean(Some(v))
    }
}

/// Scanning the body of a quoted text up to its closing delimiter `d`, a
/// doubled delimiter standing for one: the text, the characters read
/// (the closing delimiter included) and whether the delimiter closed it.
pub open spec fn quoted_scan(body: Seq<char>, d: char) -> (Seq<char>, nat, bool)
    decreases body.len(),
{
    if body.len() == 0 {
        (Seq::empty(), 0, false)
    } else if body[0] == d && body.len() >= 2 && body[1] == d {
        let rest = quoted_scan(body.skip(2), d);
        (seq![d] + rest.0, rest.1 + 2, rest.2)
    } else if body[0] == d {
        (Seq::empty(), 1, true)
    } else {
        let rest = quoted_scan(body.drop_first(), d);
        (seq![body[0]] + rest.0, rest.1 + 1, rest.2)
    }
}

/// Reading a text from the start of the input: between single or double
/// quotes (a doubled quote standing for one; without a closing quote, the
/// opening quote and all the rest), else the whole input.
pub open spec fn text_read(s: Seq<char>) -> (Seq<char>, nat) {
    if s.len() > 0 && (s[0] == '\'' || s[0] == '"') {
        let scan = quoted_scan(s.drop_first(), s[0]);
        if scan.2 {
            (scan.0, scan.1 + 1)
        } else {
            (seq![s[0]] + scan.0, s.len())
        }
    } else {
        (s, s.len())
    }
}

proof fn lemma_quoted_scan_len(body: Seq<char>, d: char)
    ensures
        quoted_scan(body, d).1 <= body.len(),
        !quoted_scan(body, d).2 ==> quoted_scan(body, d).1 == body.len(),
    decreases body.len(),
{
    if body.len() == 0 {
    } else if body[0] == d && body.len() >= 2 && body[1] == d {
        lemma_quoted_scan_len(body.skip(2), d);
    } else if body[0] == d {
    } else {
        lemma_quoted_scan_len(body.drop_first(), d);
    }
}

/// Prepending a character to a text prepends its escaped form to the body
/// of its literal.
proof fn lemma_body_prepend(c: char, t: Seq<char>, d: char, e: Seq<char>)
    ensures
        crate::sql_writer::string_body(seq![c] + t, d, e) == (if c == d {
            e
        } else if c == '\n' {
            seq!['\\', 'n']
        } else {
            seq![c]
        }) + crate::sql_writer::string_body(t, d, e),
    decreases t.len(),
{
    let s = seq![c] + t;
    let piece = |x: char| if x == d {
        e
    } else if x == '\n' {
        seq!['\\', 'n']
    } else {
        seq![x]
    };
    if t.len() == 0 {
        assert(s.drop_last() =~= Seq::<char>::empty());
        assert(crate::sql_writer::string_body(s, d, e) == crate::sql_writer::string_body(
            s.drop_last(),
            d,
            e,
        ) + piece(s.last()));
        assert(crate::sql_writer::string_body(s, d, e) =~= piece(c)
            + crate::sql_writer::string_body(t, d, e));
    } else {
        lemma_body_prepend(c, t.drop_last(), d, e);
        assert(s.drop_last() =~= seq![c] + t.drop_last());
        assert(s.last() == t.last());
        let bt = crate::sql_writer::string_body(t.drop_last(), d, e);
        assert(crate::sql_writer::string_body(s, d, e) == crate::sql_writer::string_body(
            s.drop_last(),
            d,
            e,
        ) + piece(s.last()));
        assert(crate::sql_writer::string_body(t, d, e) == bt + piece(t.last()));
        assert(crate::sql_writer::string_body(s, d, e) =~= piece(c)
            + crate::sql_writer::string_body(t, d, e));
    }
}

/// Scanning the body of a single-quoted literal, then its closing quote,
/// gives back the text, reading the whole literal.
proof fn lemma_scan_literal(s: Seq<char>)
    requires
        forall|i: int| 0 <= i < s.len() ==> s[i] != '\n',
    ensures
        quoted_scan(
            crate::sql_writer::string_body(s, '\'', seq!['\'', '\'']) + seq!['\''],
            '\'',
        ) == (s, crate::sql_writer::string_body(s, '\'', seq!['\'', '\'']).len() + 1, true),
    decreases s.len(),
{
    let e = seq!['\'', '\''];
    let body = crate::sql_writer::string_body(s, '\'', e);
    let input = body + seq!['\''];
    if s.len() == 0 {
        assert(input =~= seq!['\'']);
    } else {
        let c = s[0];
        let t = s.drop_first();
        assert(s =~= seq![c] + t);
        lemma_body_prepend(c, t, '\'', e);
        let tb = crate::sql_writer::string_body(t, '\'', e);
        lemma_scan_literal(t);
        if c == '\'' {
            assert(input =~= seq!['\'', '\''] + (tb + seq!['\'']));
            assert(input.skip(2) =~= tb + seq!['\'']);
        } else {
            assert(input =~= seq![c] + (tb + seq!['\'']));
            assert(input.drop_first() =~= tb + seq!['\'']);
        }
    }
}

/// Reading a text back from the string literal it is written as (outside a
/// string literal fragment) gives the text again and uses the whole literal:
/// every inner single quote is doubled, `'it''s'` reading as `it's`. A line
/// break is written as `\n`, which is not read back, so texts holding one
/// are left out.
pub proof fn law_string_literal_reads_back(f: crate::context::Fragment, s: Seq<char>)
    requires
        f != crate::context::Fragment::StringLiteral,
        forall|i: int| 0 <= i < s.len() ==> s[i] != '\n',
    ensures
        text_read(crate::sql_writer::string_literal(f, s)) == (
            s,
            crate::sql_writer::string_literal(f, s).len(),
        ),
{
    let lit = crate::sql_writer::string_literal(f, s);
    let body = crate::sql_writer::string_body(s, '\'', seq!['\'', '\'']);
    assert(lit =~= seq!['\''] + (body + seq!['\'']));
    assert(lit.drop_first() =~= body + seq!['\'']);
    lemma_scan_literal(s);
}

/// Reads a text from the start of `input` (see [`text_read`]); `input` is
/// left after it.
pub fn extract_text(input: &mut &str) -> (r: String)
    ensures
        r@ == text_read(old(input)@).0,
        final(input)@ == old(input)@.skip(text_read(old(input)@).1 as int),
        text_read(old(input)@).1 <= old(input)@.len(),
{
    let value: &str = *input;
    let n = value.unicode_len();
    if n == 0 || (value.get_char(0) != '\'' && value.get_char(0) != '"') {
        *input = value.substring_char(n, n);
        return String::from_str(value);
    }
    let d = value.get_char(0);
    let ghost body = value@.drop_first();
    let mut result = String::new();
    let mut i: usize = 1;
    proof {
        assert(body.skip(0) =~= body);
        lemma_quoted_scan_len(body, d);
    }
    while i < n
        invariant
            1 <= i <= n,
            n == value@.len(),
            body == value@.drop_first(),
            d == value@[0],
            d == '\'' || d == '"',
            value@ == old(input)@,
            quoted_scan(body, d).0 == result@ + quoted_scan(body.skip(i - 1), d).0,
            quoted_scan(body, d).1 == (i - 1) + quoted_scan(body.skip(i - 1), d).1,
            quoted_scan(body, d).2 == quoted_scan(body.skip(i - 1), d).2,
        decreases n - i,
    {
        let ghost rest = body.skip(i - 1);
        let c = value.get_char(i);
        assert(rest[0] == c);
        if c == d {
            if i + 1 < n && value.get_char(i + 1) == d {
                assert(rest[1] == d);
                assert(rest.skip(2) =~= body.skip(i + 1));
                push_char(&mut result, d);
                i = i + 2;
            } else {
                assert(!(rest.len() >= 2 && rest[1] == d));
                assert(quoted_scan(rest, d) == (Seq::<char>::empty(), 1nat, true));
                assert(result@ + Seq::<char>::empty() =~= result@);
                assert(text_read(value@) == (quoted_scan(body, d).0, quoted_scan(body, d).1 + 1));
                *input = value.substring_char(i + 1, n);
                return result;
            }
        } else {
            assert(rest.drop_first() =~= body.skip(i as int));
            push_char(&mut result, c);
            i = i + 1;
        }
    }
    assert(body.skip(i - 1).len() == 0);
    let mut text = String::new();
    push_char(&mut text, d);
    text.append(result.as_str());
    *input = value.substring_char(n, n);
    text
}

/// Reading a text from the whole input.
pub open spec fn text_parsed(s: Seq<char>) -> Result<Seq<char>, ConversionError> {
    if text_read(s).1 == s.len() {
        Ok(text_read(s).0)
    } else {
        Err(ConversionError::TrailingInput)
    }
}

/// What converting a value to `String` gives.
pub open spec fn string_from_value(v: Value) -> Result<Seq<char>, ConversionError> {
    match v {
        Value::Varchar(Some(s)) => Ok(s@),
        Value::Char(Some(c)) => Ok(seq![c]),
        Value::Unknown(Some(s)) => text_parsed(s@),
        _ => Err(ConversionError::Incompatible),
    }
}

impl AsValue for String {
    open spec fn converts(value: Value, result: Result<String, ConversionError>) -> bool {
        match string_from_value(value) {
            Ok(s) => result matches Ok(t) && t@ == s,
            Err(e) => result == Err::<String, ConversionError>(e),
        }
    }

    open spec fn spec_empty() -> Value {
        Value::Varchar(None)
    }

    open spec fn valued(self, v: Value) -> bool {
        v == Value::Varchar(Some(self))
    }

    open spec fn readable(value: Value) -> bool {
        true
    }

    fn as_empty_value() -> (r: Value)
        ensures
            r == Value::Varchar(None),
    {
        Value::Varchar(None)
    }

    fn as_value(self) -> (r: Value)
        ensures
            r == Value::Varchar(Some(self)),
    {
        Value::Varchar(Some(self))
    }

    fn try_from_value(value: Value) -> (r: Result<String, ConversionError>)
        ensures
            match string_from_value(value) {
                Ok(s) => r matches Ok(t) && t@ == s,
                Err(e) => r == Err::<String, ConversionError>(e),
            },
    {
        match value {
            Value::Varchar(Some(s)) => Ok(s),
            Value::Char(Some(c)) => {
                let mut s = String::new();
                push_char(&mut s, c);
                Ok(s)
            },
            Value::Unknown(Some(s)) => {
                let mut input = s.as_str();
                let text = extract_text(&mut input);
                if input.is_empty() {
                    Ok(text)
                } else {
                    Err(ConversionError::TrailingInput)
                }
            },
            _ => Err(ConversionError::Incompatible),
        }
    }

    open spec fn extract_readable(s: Seq<char>) -> bool {
        true
    }

    open spec fn extracts(s: Seq<char>, result: Result<String, ConversionError>, rest: Seq<char>) -> bool {
        &&& result matches Ok(t) && t@ == text_read(s).0
        &&& rest == s.skip(text_read(s).1 as int)
    }

    fn extract(input: &mut &str) -> (r: Result<String, ConversionError>) {
        Ok(extract_text(input))
    }
}

impl<'a> AsValue for Cow<'a, str> {
    /// As for `String`: the text converted, held owned.
    open spec fn converts(value: Value, result: Result<Cow<'a, str>, ConversionError>) -> bool {
        match string_from_value(value) {
            Ok(s) => result matches Ok(c) && c@ == s,
            Err(e) => result == Err::<Cow<'a, str>, ConversionError>(e),
        }
    }

    open spec fn spec_empty() -> Value {
        Value::Varchar(None)
    }

    /// A text value with the same characters, borrowed or owned.
    open spec fn valued(self, v: Value) -> bool {
        v matches Value::Varchar(Some(s)) && s@ == self@
    }

    open spec fn readable(value: Value) -> bool {
        true
    }

    fn as_empty_value() -> (r: Value) {
        Value::Varchar(None)
    }

    fn as_value(self) -> (r: Value) {
        match self {
            Cow::Borrowed(b) => Value::Varchar(Some(String::from_str(b))),
            Cow::Owned(o) => Value::Varchar(Some(o)),
        }
    }

    fn try_from_value(value: Value) -> (r: Result<Cow<'a, str>, ConversionError>) {
        match String::try_from_value(value) {
            Ok(s) => Ok(Cow::Owned(s)),
            Err(e) => Err(e),
        }
    }

    open spec fn extract_readable(s: Seq<char>) -> bool {
        true
    }

    /// Borrowed text is not read from text directly.
    open spec fn extracts(s: Seq<char>, result: Result<Cow<'a, str>, ConversionError>, rest: Seq<char>) -> bool {
        result == Err::<Cow<'a, str>, ConversionError>(ConversionError::Unparsable) && rest == s
    }

    fn extract(input: &mut &str) -> (r: Result<Cow<'a, str>, ConversionError>) {
        Err(ConversionError::Unparsable)
    }
}

impl From<String> for Value {
    fn from(value: String) -> (r: Value) {
        Value::Varchar(Some(value))
    }
}

impl vstd::std_specs::convert::FromSpecImpl<String> for Value {
    open spec fn obeys_from_spec() -> bool {
        true
    }

    open spec fn from_spec(v: String) -> Value {
        Value::Varchar(Some(v))
    }
}

impl From<&'static str> for Value {
    fn from(value: &'static str) -> (r: Value) {
        Value::Varchar(Some(String::from_str(value)))
    }
}

impl vstd::std_specs::convert::FromSpecImpl<&'static str> for Value {
    open spec fn obeys_from_spec() -> bool {
        false
    }

    open spec fn from_spec(v: &'static str) -> Value {
        Value::Null
    }
}

/// What converting a value to `char` gives: a text of one ASCII character
/// converts to it.
pub open spec fn char_from_value(v: Value) -> Result<char, ConversionError> {
    match v {
        Value::Char(Some(c)) => Ok(c),
        Value::Varchar(Some(s)) => if s@.len() == 1 && (s@[0] as u32) < 128 {
            Ok(s@[0])
        } else {
            Err(ConversionError::Incompatible)
        },
        Value::Unknown(Some(s)) => if s@.len() == 0 {
            Err(ConversionError::EmptyInput)
        } else if s@.len() == 1 {
            Ok(s@[0])
        } else {
            Err(ConversionError::TrailingInput)
        },
        _ => Err(ConversionError::Incompatible),
    }
}

impl AsValue for char {
    open spec fn converts(value: Value, result: Result<char, ConversionError>) -> bool {
        result == char_from_value(value)
    }

    open spec fn spec_empty() -> Value {
        Value::Char(None)
    }

    open spec fn valued(self, v: Value) -> bool {
        v == Value::Char(Some(self))
    }

    /// Reading a character from text steps over one byte, which must be the
    /// whole first character.
    open spec fn readable(value: Value) -> bool {
        value matches Value::Unknown(Some(s)) ==> (s@.len() == 0 || (s@[0] as u32) < 128)
    }

    fn as_empty_value() -> (r: Value)
        ensures
            r == Value::Char(None),
    {
        Value::Char(None)
    }

    fn as_value(self) -> (r: Value)
        ensures
            r == Value::Char(Some(self)),
    {
        Value::Char(Some(self))
    }

    fn try_from_value(value: Value) -> (r: Result<char, ConversionError>)
        ensures
            r == char_from_value(value),
    {
        match value {
            Value::Char(Some(c)) => Ok(c),
            Value::Varchar(Some(s)) => {
                if s.as_str().unicode_len() == 1 && (s.as_str().get_char(0) as u32) < 128 {
                    Ok(s.as_str().get_char(0))
                } else {
                    Err(ConversionError::Incompatible)
                }
            },
            Value::Unknown(Some(s)) => {
                let n = s.as_str().unicode_len();
                if n == 0 {
                    Err(ConversionError::EmptyInput)
                } else if n == 1 {
                    Ok(s.as_str().get_char(0))
                } else {
                    Err(ConversionError::TrailingInput)
                }
            },
            _ => Err(ConversionError::Incompatible),
        }
    }

    /// Reading a character steps over one byte, which must be the whole
    /// first character.
    open spec fn extract_readable(s: Seq<char>) -> bool {
        s.len() == 0 || (s[0] as u32) < 128
    }

    open spec fn extracts(s: Seq<char>, result: Result<char, ConversionError>, rest: Seq<char>) -> bool {
        if s.len() == 0 {
            result == Err::<char, ConversionError>(ConversionError::EmptyInput) && rest == s
        } else {
            result == Ok::<char, ConversionError>(s[0]) && rest == s.drop_first()
        }
    }

    fn extract(input: &mut &str) -> (r: Result<char, ConversionError>) {
        let value: &str = *input;
        let n = value.unicode_len();
        if n == 0 {
            return Err(ConversionError::EmptyInput);
        }
        let c = value.get_char(0);
        *input = value.substring_char(1, n);
        Ok(c)
    }
}

impl From<char> for Value {
    fn from(value: char) -> (r: Value) {
        Value::Char(Some(value))
    }
}

impl vstd::std_specs::convert::FromSpecImpl<char> for Value {
    open spec fn obeys_from_spec() -> bool {
        true
    }

    open spec fn from_spec(v: char) -> Value {
        Value::Char(Some(v))
    }
}


impl<T: AsValue> AsValue for Option<T> {
    /// A null value converts to `None` without reading anything.
    open spec fn readable(value: Value) -> bool {
        !spec_is_null(value) ==> T::readable(value)
    }

    /// A null value gives `None`, any other what `T` gives, in `Some`.
    open spec fn converts(value: Value, result: Result<Option<T>, ConversionError>) -> bool {
        if spec_is_null(value) {
            result == Ok::<Option<T>, ConversionError>(None)
        } else {
            match result {
                Ok(Some(x)) => T::converts(value, Ok(x)),
                Ok(None) => false,
                Err(e) => T::converts(value, Err(e)),
            }
        }
    }

    open spec fn spec_empty() -> Value {
        T::spec_empty()
    }

    open spec fn valued(self, v: Value) -> bool {
        match self {
            Some(x) => x.valued(v),
            None => v == T::spec_empty(),
        }
    }

    fn as_empty_value() -> (r: Value) {
        T::as_empty_value()
    }

    fn as_value(self) -> (r: Value) {
        match self {
            Some(v) => v.as_value(),
            None => T::as_empty_value(),
        }
    }

    fn try_from_value(value: Value) -> (r: Result<Option<T>, ConversionError>) {
        if value.is_null() {
            Ok(None)
        } else {
            match T::try_from_value(value) {
                Ok(x) => Ok(Some(x)),
                Err(e) => Err(e),
            }
        }
    }

    open spec fn extract_readable(s: Seq<char>) -> bool {
        T::extract_readable(s)
    }

    /// What `T` reads, in `Some`.
    open spec fn extracts(s: Seq<char>, result: Result<Option<T>, ConversionError>, rest: Seq<char>) -> bool {
        match result {
            Ok(Some(x)) => T::extracts(s, Ok(x), rest),
            Ok(None) => false,
            Err(e) => T::extracts(s, Err(e), rest),
        }
    }

    fn extract(input: &mut &str) -> (r: Result<Option<T>, ConversionError>) {
        match T::extract(input) {
            Ok(x) => Ok(Some(x)),
            Err(e) => Err(e),
        }
    }
}

impl<T: AsValue> AsValue for Box<T> {
    open spec fn readable(value: Value) -> bool {
        T::readable(value)
    }

    open spec fn converts(value: Value, result: Result<Box<T>, ConversionError>) -> bool {
        match result {
            Ok(x) => T::converts(value, Ok(*x)),
            Err(e) => T::converts(value, Err(e)),
        }
    }

    open spec fn spec_empty() -> Value {
        T::spec_empty()
    }

    open spec fn valued(self, v: Value) -> bool {
        (*self).valued(v)
    }

    fn as_empty_value() -> (r: Value) {
        T::as_empty_value()
    }

    fn as_value(self) -> (r: Value) {
        (*self).as_value()
    }

    fn try_from_value(value: Value) -> (r: Result<Box<T>, ConversionError>) {
        match T::try_from_value(value) {
            Ok(x) => Ok(Box::new(x)),
            Err(e) => Err(e),
        }
    }

    open spec fn extract_readable(s: Seq<char>) -> bool {
        T::extract_readable(s)
    }

    open spec fn extracts(s: Seq<char>, result: Result<Box<T>, ConversionError>, rest: Seq<char>) -> bool {
        match result {
            Ok(x) => T::extracts(s, Ok(*x), rest),
            Err(e) => T::extracts(s, Err(e), rest),
        }
    }

    fn extract(input: &mut &str) -> (r: Result<Box<T>, ConversionError>) {
        match T::extract(input) {
            Ok(x) => Ok(Box::new(x)),
            Err(e) => Err(e),
        }
    }
}

/// A column value that may be left unset on insert, the column's default
/// then applying.
#[derive(Debug, Clone, PartialEq)]
pub enum Passive<T> {
    Active(T),
    NotSet,
}

impl<T> Default for Passive<T> {
    fn default() -> (r: Self)
        ensures
            r is NotSet,
    {
        Passive::NotSet
    }
}

impl<T> Passive<T> {
    /// The value that is set.
    pub fn expect(self, msg: &str) -> (r: T)
        requires
            self is Active,
        ensures
            self == Passive::Active(r),
    {
        match self {
            Passive::Active(v) => v,
            Passive::NotSet => vstd::pervasive::unreached(),
        }
    }

    /// The value that is set.
    pub fn unwrap(self) -> (r: T)
        requires
            self is Active,
        ensures
            self == Passive::Active(r),
    {
        match self {
            Passive::Active(v) => v,
            Passive::NotSet => vstd::pervasive::unreached(),
        }
    }
}

impl<T> From<T> for Passive<T> {
    fn from(value: T) -> (r: Passive<T>) {
        Passive::Active(value)
    }
}

impl<T> vstd::std_specs::convert::FromSpecImpl<T> for Passive<T> {
    open spec fn obeys_from_spec() -> bool {
        true
    }

    open spec fn from_spec(v: T) -> Passive<T> {
        Passive::Active(v)
    }
}

impl<T: AsValue> AsValue for Passive<T> {
    open spec fn readable(value: Value) -> bool {
        T::readable(value)
    }

    /// Every value converts to a value that is set.
    open spec fn converts(value: Value, result: Result<Passive<T>, ConversionError>) -> bool {
        match result {
            Ok(Passive::Active(x)) => T::converts(value, Ok(x)),
            Ok(Passive::NotSet) => false,
            Err(e) => T::converts(value, Err(e)),
        }
    }

    open spec fn spec_empty() -> Value {
        T::spec_empty()
    }

    /// A value that is not set is the prototype of its type.
    open spec fn valued(self, v: Value) -> bool {
        match self {
            Passive::Active(x) => x.valued(v),
            Passive::NotSet => v == T::spec_empty(),
        }
    }

    fn as_empty_value() -> (r: Value) {
        T::as_empty_value()
    }

    fn as_value(self) -> (r: Value) {
        match self {
            Passive::Active(v) => v.as_value(),
            Passive::NotSet => T::as_empty_value(),
        }
    }

    fn try_from_value(value: Value) -> (r: Result<Passive<T>, ConversionError>) {
        match T::try_from_value(value) {
            Ok(x) => Ok(Passive::Active(x)),
            Err(e) => Err(e),
        }
    }

    open spec fn extract_readable(s: Seq<char>) -> bool {
        true
    }

    /// Nothing is read as a value that may be left unset.
    open spec fn extracts(s: Seq<char>, result: Result<Passive<T>, ConversionError>, rest: Seq<char>) -> bool {
        result == Err::<Passive<T>, ConversionError>(ConversionError::Unparsable) && rest == s
    }

    fn extract(input: &mut &str) -> (r: Result<Passive<T>, ConversionError>) {
        Err(ConversionError::Unparsable)
    }
}

/// Converting a value to SQL and back gives the value again, for every
/// integer type, `bool`, `char` and `String`.
pub proof fn law_value_round_trip(
    a: i8,
    b: i16,
    c: i32,
    d: i64,
    e: i128,
    f: u8,
    g: u16,
    h: u32,
    i: u64,
    j: u128,
    k: bool,
    l: char,
    m: String,
)
    ensures
        i8_from_value(Value::Int8(Some(a))) == Ok::<i8, ConversionError>(a),
        i16_from_value(Value::Int16(Some(b))) == Ok::<i16, ConversionError>(b),
        i32_from_value(Value::Int32(Some(c))) == Ok::<i32, ConversionError>(c),
        i64_from_value(Value::Int64(Some(d))) == Ok::<i64, ConversionError>(d),
        i128_from_value(Value::Int128(Some(e))) == Ok::<i128, ConversionError>(e),
        u8_from_value(Value::UInt8(Some(f))) == Ok::<u8, ConversionError>(f),
        u16_from_value(Value::UInt16(Some(g))) == Ok::<u16, ConversionError>(g),
        u32_from_value(Value::UInt32(Some(h))) == Ok::<u32, ConversionError>(h),
        u64_from_value(Value::UInt64(Some(i))) == Ok::<u64, ConversionError>(i),
        u128_from_value(Value::UInt128(Some(j))) == Ok::<u128, ConversionError>(j),
        bool_from_value(Value::Boolean(Some(k))) == Ok::<bool, ConversionError>(k),
        char_from_value(Value::Char(Some(l))) == Ok::<char, ConversionError>(l),
        string_from_value(Value::Varchar(Some(m))) == Ok::<Seq<char>, ConversionError>(m@),
{
}

/// Text, borrowed or owned, converts back to the same characters from the
/// value it gives.
pub proof fn law_text_round_trip<'a>(c: Cow<'a, str>, v: Value)
    requires
        c.valued(v),
    ensures
        <Cow<'a, str>>::converts(v, Ok(c)),
{
}

/// The number an integer value holds, if it is an integer value holding one.
pub open spec fn integer_held(v: Value) -> Option<int> {
    match v {
        Value::Int8(Some(x)) => Some(x as int),
        Value::Int16(Some(x)) => Some(x as int),
        Value::Int32(Some(x)) => Some(x as int),
        Value::Int64(Some(x)) => Some(x as int),
        Value::Int128(Some(x)) => Some(x as int),
        Value::UInt8(Some(x)) => Some(x as int),
        Value::UInt16(Some(x)) => Some(x as int),
        Value::UInt32(Some(x)) => Some(x as int),
        Value::UInt64(Some(x)) => Some(x as int),
        Value::UInt128(Some(x)) => Some(x as int),
        _ => None,
    }
}

/// Whether a conversion result keeps the number `n`: the same number, or a
/// refusal of the variant (never a range error).
pub open spec fn keeps_number<T>(r: Result<T, ConversionError>, m: spec_fn(T) -> int, n: int) -> bool {
    match r {
        Ok(x) => m(x) == n,
        Err(e) => e == ConversionError::Incompatible,
    }
}

/// Converting an integer value to an integer type that holds its number
/// gives that number, or refuses the value's variant; it never gives
/// another number or a range error.
pub proof fn law_in_range_integers_keep_their_number(v: Value, n: int)
    requires
        integer_held(v) == Some(n),
    ensures
        -128 <= n <= 127 ==> keeps_number(i8_from_value(v), |x: i8| x as int, n),
        -32768 <= n <= 32767 ==> keeps_number(i16_from_value(v), |x: i16| x as int, n),
        -2147483648 <= n <= 2147483647 ==> keeps_number(i32_from_value(v), |x: i32| x as int, n),
        -9223372036854775808 <= n <= 9223372036854775807 ==> keeps_number(
            i64_from_value(v),
            |x: i64| x as int,
            n,
        ),
        -170141183460469231731687303715884105728 <= n <= 170141183460469231731687303715884105727
            ==> keeps_number(i128_from_value(v), |x: i128| x as int, n),
        0 <= n <= 255 ==> keeps_number(u8_from_value(v), |x: u8| x as int, n),
        0 <= n <= 65535 ==> keeps_number(u16_from_value(v), |x: u16| x as int, n),
        0 <= n <= 4294967295 ==> keeps_number(u32_from_value(v), |x: u32| x as int, n),
        0 <= n <= 18446744073709551615 ==> keeps_number(u64_from_value(v), |x: u64| x as int, n),
        0 <= n <= 340282366920938463463374607431768211455 ==> keeps_number(
            u128_from_value(v),
            |x: u128| x as int,
            n,
        ),
{
}

/// Widening an integer keeps it: a smaller integer type converts to every
/// integer type that holds all its values.
pub proof fn law_widening_keeps_value(a: i8, b: u8, c: i16, d: u16, e: i32, f: u32, g: i64, h: u64)
    ensures
        i16_from_value(Value::Int8(Some(a))) == Ok::<i16, ConversionError>(a as i16),
        i32_from_value(Value::Int16(Some(c))) == Ok::<i32, ConversionError>(c as i32),
        i64_from_value(Value::Int32(Some(e))) == Ok::<i64, ConversionError>(e as i64),
        i128_from_value(Value::Int64(Some(g))) == Ok::<i128, ConversionError>(g as i128),
        i16_from_value(Value::UInt8(Some(b))) == Ok::<i16, ConversionError>(b as i16),
        i32_from_value(Value::UInt16(Some(d))) == Ok::<i32, ConversionError>(d as i32),
        i64_from_value(Value::UInt32(Some(f))) == Ok::<i64, ConversionError>(f as i64),
        i128_from_value(Value::UInt64(Some(h))) == Ok::<i128, ConversionError>(h as i128),
        u16_from_value(Value::UInt8(Some(b))) == Ok::<u16, ConversionError>(b as u16),
        u32_from_value(Value::UInt16(Some(d))) == Ok::<u32, ConversionError>(d as u32),
        u64_from_value(Value::UInt32(Some(f))) == Ok::<u64, ConversionError>(f as u64),
        u128_from_value(Value::UInt64(Some(h))) == Ok::<u128, ConversionError>(h as u128),
{
}

/// Every non-zero number converts to `true` and zero to `false`.
pub proof fn law_numbers_as_booleans(x: i64, y: u128)
    ensures
        bool_from_value(Value::Int64(Some(x))) == Ok::<bool, ConversionError>(x != 0),
        bool_from_value(Value::UInt128(Some(y))) == Ok::<bool, ConversionError>(y != 0),
{
}


/// An optional value converts back to itself when its type's values do and
/// are never null, and its type's prototype is null: `None` goes through the
/// prototype, `Some` through the value.
pub proof fn law_option_round_trip<T: AsValue>(x: Option<T>, v: Value)
    requires
        spec_is_null(T::spec_empty()),
        x matches Some(y) ==> (y.valued(v) ==> T::converts(v, Ok(y)) && !spec_is_null(v)),
        x.valued(v),
    ensures
        Option::<T>::converts(v, Ok(x)),
{
}

/// Integers round-trip through an optional value, and `None` through the null
/// prototype.
pub proof fn law_optional_integer_round_trip(x: Option<i32>, v: Value)
    requires
        x.valued(v),
    ensures
        Option::<i32>::converts(v, Ok(x)),
{
    law_option_round_trip(x, v);
}

} // verus!
