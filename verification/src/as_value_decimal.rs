//! Converting SQL values to decimals, and reading decimals from text such as
//! `12.345`.
use vstd::prelude::*;
use vstd::string::StrSliceExecFns;
use crate::as_value::AsValue;
use crate::as_value_interval::{atoi_i128, trim_ascii_space, trim_ascii_start};
use crate::parse_int::{
    ConversionError, atoi_i128_signed, lemma_leading_digits_bound, radix_signed, radix_unsigned,
    sign_len,
};
use crate::value::{DecimalValue, Value, max_decimal_mantissa, pow10};

verus! {

/// What reading a decimal from a text comes to.
pub enum DecimalScan {
    /// The mantissa and scale read, and the text left after the number and
    /// the ASCII space that follows it.
    Read(int, nat, Seq<char>),
    /// The number does not fit in a decimal.
    Rejected,
    /// Reading would overflow an integer.
    Panics,
}

/// Whether a mantissa and scale make a decimal: at most 96 bits of mantissa
/// and at most 28 digits of scale.
pub open spec fn decimal_in_range(m: int, scale: int) -> bool {
    -max_decimal_mantissa() <= m <= max_decimal_mantissa() && 0 <= scale <= 28
}

/// Reading a decimal from the start of `s`: an optional sign and the digits
/// of the whole part, then optionally `.` and the digits of the fraction.
/// The fraction's digits are appended to the whole part's digits, so after
/// a `-` they count as negative only when the whole part is not zero. With
/// no digits at all the number is zero and nothing but a sign is read.
pub open spec fn decimal_scan(s: Seq<char>) -> DecimalScan {
    let (n, len) = radix_signed(s);
    let v = s.skip(len as int);
    if !(i128::MIN <= n <= i128::MAX) {
        DecimalScan::Panics
    } else if v.len() > 0 && v[0] == '.' {
        let w = v.skip(1);
        let (dec, dlen) = radix_unsigned(w);
        let scale = (dlen as u32) as nat;
        if dec > i128::MAX || scale >= 20 || !(i128::MIN <= n * pow10(scale) <= i128::MAX) || !(
        i128::MIN <= n * pow10(scale) + dec <= i128::MAX) {
            DecimalScan::Panics
        } else if !decimal_in_range(n * pow10(scale) + dec, scale as int) {
            DecimalScan::Rejected
        } else {
            DecimalScan::Read(
                n * pow10(scale) + dec,
                scale,
                trim_ascii_space(w.skip(dlen as int)),
            )
        }
    } else if !decimal_in_range(n, 0) {
        DecimalScan::Rejected
    } else {
        DecimalScan::Read(n, 0, trim_ascii_space(v))
    }
}

/// `10^e` as a `u64`.
fn pow10_u64(e: u32) -> (r: u64)
    requires
        e < 20,
    ensures
        r == pow10(e as nat),
{
    let mut r: u64 = 1;
    let mut i: u32 = 0;
    while i < e
        invariant
            i <= e < 20,
            r == pow10(i as nat),
        decreases e - i,
    {
        proof {
            lemma_pow10_bound(i as nat);
        }
        r = r * 10;
        i = i + 1;
    }
    r
}

/// Powers of ten grow with the exponent.
proof fn lemma_pow10_grows(a: nat, b: nat)
    requires
        a <= b,
    ensures
        1 <= pow10(a) <= pow10(b),
    decreases b,
{
    if b > a {
        lemma_pow10_grows(a, (b - 1) as nat);
    } else {
        lemma_pow10_positive(a);
    }
}

/// Powers of ten are positive.
proof fn lemma_pow10_positive(a: nat)
    ensures
        pow10(a) >= 1,
    decreases a,
{
    if a > 0 {
        lemma_pow10_positive((a - 1) as nat);
    }
}

/// `10^e` does not exceed `10^18` for `e < 19`.
proof fn lemma_pow10_bound(e: nat)
    requires
        e < 19,
    ensures
        1 <= pow10(e) <= 1_000_000_000_000_000_000,
{
    lemma_pow10_grows(e, 18);
    reveal_with_fuel(pow10, 19);
}

/// Reads a decimal from the start of `input`, as `decimal_scan` says: on
/// success `input` is left after it, otherwise unchanged and the error is
/// `OutOfRange`.
pub fn extract_decimal(input: &mut &str) -> (r: Result<DecimalValue, ConversionError>)
    requires
        !(decimal_scan(old(input)@) is Panics),
    ensures
        match decimal_scan(old(input)@) {
            DecimalScan::Read(m, scale, rest) => {
                &&& r matches Ok(d) && d.spec_mantissa() == m && d.spec_scale() == scale
                &&& final(input)@ == rest
            },
            _ => {
                &&& r == Err::<DecimalValue, ConversionError>(ConversionError::OutOfRange)
                &&& final(input)@ == old(input)@
            },
        },
{
    let value: &str = *input;
    let n_chars = value.unicode_len();
    proof {
        if value@.len() > 0 {
            lemma_leading_digits_bound(value@.skip(sign_len(value@)));
        }
    }
    let (n, len) = atoi_i128_signed(value);
    let v = value.substring_char(len, n_chars);
    if v.unicode_len() > 0 && v.get_char(0) == '.' {
        let w = v.substring_char(1, v.unicode_len());
        proof {
            lemma_leading_digits_bound(w@);
        }
        let (dec, dlen) = atoi_i128(w);
        let scale = dlen as u32;
        let p = pow10_u64(scale);
        let m = n * (p as i128) + dec;
        match DecimalValue::new(m, scale) {
            Some(d) => {
                *input = trim_ascii_start(w.substring_char(dlen, w.unicode_len()));
                Ok(d)
            },
            None => Err(ConversionError::OutOfRange),
        }
    } else {
        match DecimalValue::new(n, 0) {
            Some(d) => {
                *input = trim_ascii_start(v);
                Ok(d)
            },
            None => Err(ConversionError::OutOfRange),
        }
    }
}

/// Reading a decimal from the whole text: its mantissa and scale.
pub open spec fn decimal_parsed(s: Seq<char>) -> Result<(int, nat), ConversionError> {
    match decimal_scan(s) {
        DecimalScan::Read(m, scale, rest) => if rest.len() == 0 {
            Ok((m, scale))
        } else {
            Err(ConversionError::TrailingInput)
        },
        _ => Err(ConversionError::OutOfRange),
    }
}

/// What converting a value to a decimal gives, as mantissa and scale:
/// integers up to 64 bits become decimals of scale zero (a `u64` is first
/// cast to `i64`), text is read as a decimal.
pub open spec fn decimal_from_value(v: Value) -> Result<(int, nat), ConversionError> {
    match v {
        Value::Decimal(Some(d), _, _) => Ok((d.spec_mantissa() as int, d.spec_scale() as nat)),
        Value::Int8(Some(x)) => Ok((x as int, 0)),
        Value::Int16(Some(x)) => Ok((x as int, 0)),
        Value::Int32(Some(x)) => Ok((x as int, 0)),
        Value::Int64(Some(x)) => Ok((x as int, 0)),
        Value::UInt8(Some(x)) => Ok((x as int, 0)),
        Value::UInt16(Some(x)) => Ok((x as int, 0)),
        Value::UInt32(Some(x)) => Ok((x as int, 0)),
        Value::UInt64(Some(x)) => Ok(((x as i64) as int, 0)),
        Value::Unknown(Some(s)) => decimal_parsed(s@),
        _ => Err(ConversionError::Incompatible),
    }
}

/// A decimal of scale zero holding the integer.
fn whole_decimal(x: i64) -> (r: DecimalValue)
    ensures
        r.spec_mantissa() == x,
        r.spec_scale() == 0,
{
    match DecimalValue::new(x as i128, 0) {
        Some(d) => d,
        None => {
            proof {
                assert(false);
            }
            vstd::pervasive::unreached()
        },
    }
}

impl AsValue for DecimalValue {
    open spec fn converts(value: Value, result: Result<DecimalValue, ConversionError>) -> bool {
        match decimal_from_value(value) {
            Ok((m, scale)) => result matches Ok(d) && d.spec_mantissa() == m && d.spec_scale()
                == scale,
            Err(e) => result == Err::<DecimalValue, ConversionError>(e),
        }
    }

    open spec fn spec_empty() -> Value {
        Value::Decimal(None, 0, 0)
    }

    open spec fn valued(self, v: Value) -> bool {
        v == Value::Decimal(Some(self), 0, self.spec_scale() as u8)
    }

    /// Floating point values are converted to decimals outside this crate;
    /// reading from text completes unless its arithmetic overflows.
    open spec fn readable(value: Value) -> bool {
        &&& !(value is Float32)
        &&& !(value is Float64)
        &&& value matches Value::Unknown(Some(s)) ==> !(decimal_scan(s@) is Panics)
    }

    fn as_empty_value() -> (r: Value)
        ensures
            r == Value::Decimal(None, 0, 0),
    {
        Value::Decimal(None, 0, 0)
    }

    fn as_value(self) -> (r: Value)
        ensures
            r == Value::Decimal(Some(self), 0, self.spec_scale() as u8),
    {
        let scale = self.scale();
        Value::Decimal(Some(self), 0, scale as u8)
    }

    fn try_from_value(value: Value) -> (r: Result<DecimalValue, ConversionError>) {
        match value {
            Value::Decimal(Some(d), _, _) => Ok(d),
            Value::Int8(Some(x)) => Ok(whole_decimal(x as i64)),
            Value::Int16(Some(x)) => Ok(whole_decimal(x as i64)),
            Value::Int32(Some(x)) => Ok(whole_decimal(x as i64)),
            Value::Int64(Some(x)) => Ok(whole_decimal(x)),
            Value::UInt8(Some(x)) => Ok(whole_decimal(x as i64)),
            Value::UInt16(Some(x)) => Ok(whole_decimal(x as i64)),
            Value::UInt32(Some(x)) => Ok(whole_decimal(x as i64)),
            Value::UInt64(Some(x)) => Ok(whole_decimal(x as i64)),
            Value::Unknown(Some(s)) => {
                let mut input = s.as_str();
                match extract_decimal(&mut input) {
                    Ok(d) => if input.unicode_len() == 0 {
                        Ok(d)
                    } else {
                        Err(ConversionError::TrailingInput)
                    },
                    Err(e) => Err(e),
                }
            },
            _ => Err(ConversionError::Incompatible),
        }
    }

    open spec fn extract_readable(s: Seq<char>) -> bool {
        !(decimal_scan(s) is Panics)
    }

    open spec fn extracts(s: Seq<char>, result: Result<DecimalValue, ConversionError>, rest: Seq<char>) -> bool {
        match decimal_scan(s) {
            DecimalScan::Read(m, scale, after) => result matches Ok(d) && d.spec_mantissa() == m
                && d.spec_scale() == scale && rest == after,
            _ => result == Err::<DecimalValue, ConversionError>(ConversionError::OutOfRange) && rest == s,
        }
    }

    fn extract(input: &mut &str) -> (r: Result<DecimalValue, ConversionError>) {
        extract_decimal(input)
    }
}

/// A decimal converts back to itself from the value it gives.
pub proof fn law_decimal_round_trip(d: DecimalValue, v: Value)
    requires
        d.valued(v),
    ensures
        <DecimalValue as AsValue>::converts(v, Ok(d)),
{
}

impl From<DecimalValue> for Value {
    fn from(value: DecimalValue) -> (r: Value) {
        let scale = value.scale();
        Value::Decimal(Some(value), 0, scale as u8)
    }
}

impl vstd::std_specs::convert::FromSpecImpl<DecimalValue> for Value {
    open spec fn obeys_from_spec() -> bool {
        true
    }

    open spec fn from_spec(v: DecimalValue) -> Value {
        Value::Decimal(Some(v), 0, v.spec_scale() as u8)
    }
}

/// A decimal whose column has a fixed width and scale.
#[derive(Clone, Copy, Debug)]
pub struct FixedDecimal<const WIDTH: u8, const SCALE: u8>(pub DecimalValue);

impl<const W: u8, const S: u8> AsValue for FixedDecimal<W, S> {
    open spec fn converts(value: Value, result: Result<FixedDecimal<W, S>, ConversionError>) -> bool {
        match decimal_from_value(value) {
            Ok((m, scale)) => result matches Ok(d) && d.0.spec_mantissa() == m && d.0.spec_scale()
                == scale,
            Err(e) => result == Err::<FixedDecimal<W, S>, ConversionError>(e),
        }
    }

    open spec fn spec_empty() -> Value {
        Value::Decimal(None, 0, 0)
    }

    open spec fn valued(self, v: Value) -> bool {
        v == Value::Decimal(Some(self.0), W, S)
    }

    open spec fn readable(value: Value) -> bool {
        <DecimalValue as AsValue>::readable(value)
    }

    fn as_empty_value() -> (r: Value)
        ensures
            r == Value::Decimal(None, 0, 0),
    {
        Value::Decimal(None, 0, 0)
    }

    fn as_value(self) -> (r: Value)
        ensures
            r == Value::Decimal(Some(self.0), W, S),
    {
        Value::Decimal(Some(self.0), W, S)
    }

    fn try_from_value(value: Value) -> (r: Result<FixedDecimal<W, S>, ConversionError>) {
        match <DecimalValue as AsValue>::try_from_value(value) {
            Ok(d) => Ok(FixedDecimal(d)),
            Err(e) => Err(e),
        }
    }

    open spec fn extract_readable(s: Seq<char>) -> bool {
        true
    }

    /// A decimal of fixed width is not read from text directly.
    open spec fn extracts(s: Seq<char>, result: Result<FixedDecimal<W, S>, ConversionError>, rest: Seq<char>) -> bool {
        result == Err::<FixedDecimal<W, S>, ConversionError>(ConversionError::Unparsable) && rest == s
    }

    fn extract(input: &mut &str) -> (r: Result<FixedDecimal<W, S>, ConversionError>) {
        Err(ConversionError::Unparsable)
    }
}

impl<const W: u8, const S: u8> From<DecimalValue> for FixedDecimal<W, S> {
    fn from(value: DecimalValue) -> (r: FixedDecimal<W, S>) {
        FixedDecimal(value)
    }
}

impl<const W: u8, const S: u8> vstd::std_specs::convert::FromSpecImpl<DecimalValue> for FixedDecimal<W, S> {
    open spec fn obeys_from_spec() -> bool {
        true
    }

    open spec fn from_spec(v: DecimalValue) -> FixedDecimal<W, S> {
        FixedDecimal(v)
    }
}

impl<const W: u8, const S: u8> From<FixedDecimal<W, S>> for DecimalValue {
    fn from(value: FixedDecimal<W, S>) -> (r: DecimalValue) {
        value.0
    }
}

impl<const W: u8, const S: u8> vstd::std_specs::convert::FromSpecImpl<FixedDecimal<W, S>> for DecimalValue {
    open spec fn obeys_from_spec() -> bool {
        true
    }

    open spec fn from_spec(v: FixedDecimal<W, S>) -> DecimalValue {
        v.0
    }
}

} // verus!
