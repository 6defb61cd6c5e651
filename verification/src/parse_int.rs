//! Reading integers from the start of a text, as values of unknown type are
//! converted to integer types.
use vstd::prelude::*;
use vstd::string::StrSliceExecFns;
use crate::text::{digits_value, is_digit};

verus! {

/// Why a value could not be converted or read.
#[derive(Clone, Copy, Debug, PartialEq, Eq, Structural)]
pub enum ConversionError {
    /// The value's variant does not convert to the type.
    Incompatible,
    /// The number does not fit in the type.
    OutOfRange,
    /// The decimal has a fractional part.
    NotInteger,
    /// There is no text to read.
    EmptyInput,
    /// The text does not start with a value of the type.
    Unparsable,
    /// The text holds more than the value.
    TrailingInput,
}

/// The number of ASCII digits the text starts with.
pub open spec fn leading_digits(s: Seq<char>) -> nat
    decreases s.len(),
{
    if s.len() > 0 && is_digit(s[0]) {
        1 + leading_digits(s.drop_first())
    } else {
        0
    }
}

/// The length of a leading `+` or `-`.
pub open spec fn sign_len(s: Seq<char>) -> int {
    if s.len() > 0 && (s[0] == '+' || s[0] == '-') {
        1
    } else {
        0
    }
}

/// The number written by the digits after an optional sign.
pub open spec fn radix_magnitude(s: Seq<char>) -> nat {
    let rest = s.skip(sign_len(s));
    digits_value(rest.take(leading_digits(rest) as int))
}

/// What `from_radix_10_signed` reads: the signed number, and the count of
/// characters read (the sign counts even without digits after it).
pub open spec fn radix_signed(s: Seq<char>) -> (int, nat) {
    let value = if s.len() > 0 && s[0] == '-' {
        -radix_magnitude(s)
    } else {
        radix_magnitude(s) as int
    };
    (value, (sign_len(s) + leading_digits(s.skip(sign_len(s)))) as nat)
}

/// What `from_radix_10` reads: the number written by the leading digits and
/// their count.
pub open spec fn radix_unsigned(s: Seq<char>) -> (nat, nat) {
    (digits_value(s.take(leading_digits(s) as int)), leading_digits(s))
}

/// `i128::from_radix_10_signed` (atoi) on the text's bytes: an optional
/// sign, then the leading ASCII digits; the number they write and how many
/// bytes (here characters, all ASCII) were read. The number must fit in an
/// `i128`: the crate's arithmetic overflows otherwise.
#[verifier::external_body]
pub(crate) fn atoi_i128_signed(s: &str) -> (r: (i128, usize))
    requires
        i128::MIN <= radix_signed(s@).0 <= i128::MAX,
    ensures
        r.0 == radix_signed(s@).0,
        r.1 == radix_signed(s@).1,
{
    <i128 as atoi::FromRadix10Signed>::from_radix_10_signed(s.as_bytes())
}

/// `u128::from_radix_10` (atoi) on the text's bytes: the number written by
/// the leading ASCII digits and their count. The number must fit in a
/// `u128`: the crate's arithmetic overflows otherwise.
#[verifier::external_body]
fn atoi_u128(s: &str) -> (r: (u128, usize))
    requires
        radix_unsigned(s@).0 <= u128::MAX,
    ensures
        r.0 == radix_unsigned(s@).0,
        r.1 == radix_unsigned(s@).1,
{
    <u128 as atoi::FromRadix10>::from_radix_10(s.as_bytes())
}

/// Text comparison of two texts of equal length.
pub open spec fn lex_greater(a: Seq<char>, b: Seq<char>) -> bool
    decreases a.len(),
{
    if a.len() == 0 || b.len() == 0 {
        false
    } else if a[0] != b[0] {
        a[0] > b[0]
    } else {
        lex_greater(a.drop_first(), b.drop_first())
    }
}

/// The digits of the largest magnitude accepted: that of `i128::MIN` for a
/// negative number, else of `i128::MAX` or `u128::MAX`.
pub open spec fn magnitude_limit(negative: bool, signed: bool) -> Seq<char> {
    if negative {
        "170141183460469231731687303715884105728"@
    } else if signed {
        "170141183460469231731687303715884105727"@
    } else {
        "340282366920938463463374607431768211455"@
    }
}

/// Whether the text starts with `-`.
pub open spec fn starts_negative(s: Seq<char>) -> bool {
    s.len() > 0 && s[0] == '-'
}

/// The digits that the range check looks at: after a `-`, the characters
/// from the second up to the count of digits that follow the `-`; otherwise
/// the leading digits.
pub open spec fn checked_digits(s: Seq<char>) -> Seq<char> {
    let start: int = if starts_negative(s) {
        1
    } else {
        0
    };
    s.subrange(start, leading_digits(s.skip(start)) as int)
}

/// Whether the range check rejects the digits it looks at.
pub open spec fn digits_too_long(s: Seq<char>, signed: bool) -> bool {
    let v = checked_digits(s);
    let lim = magnitude_limit(starts_negative(s), signed);
    v.len() > lim.len() || (v.len() == lim.len() && lex_greater(v, lim))
}

/// Whether reading an integer from the text completes: after a `-` there is
/// a digit, and a number that passes the range check fits the reading
/// arithmetic.
pub open spec fn integer_readable(s: Seq<char>, signed: bool) -> bool {
    s.len() == 0 || ((!starts_negative(s) || leading_digits(s.drop_first()) > 0) && (
    digits_too_long(s, signed) || (if signed {
        i128::MIN <= radix_signed(s).0 <= i128::MAX
    } else {
        radix_unsigned(s).0 <= u128::MAX
    })))
}

/// Reading an integer in `lo..=hi` from the start of the text: the number
/// and how many characters it took.
pub open spec fn integer_read(s: Seq<char>, lo: int, hi: int, signed: bool) -> Result<
    (int, nat),
    ConversionError,
> {
    if s.len() == 0 {
        Err(ConversionError::EmptyInput)
    } else if digits_too_long(s, signed) {
        Err(ConversionError::OutOfRange)
    } else {
        let (num, tail) = if signed {
            radix_signed(s)
        } else {
            (radix_unsigned(s).0 as int, radix_unsigned(s).1)
        };
        if tail == 0 {
            Err(ConversionError::Unparsable)
        } else if num < lo || num > hi {
            Err(ConversionError::OutOfRange)
        } else {
            Ok((num, tail))
        }
    }
}

/// The count of leading ASCII digits from position `from`.
fn count_digits(s: &str, from: usize) -> (r: usize)
    requires
        from <= s@.len(),
    ensures
        r == leading_digits(s@.skip(from as int)),
        from + r <= s@.len(),
{
    let n = s.unicode_len();
    let mut i = from;
    while i < n && is_ascii_digit(s.get_char(i))
        invariant
            from <= i <= n,
            n == s@.len(),
            leading_digits(s@.skip(from as int)) == (i - from) + leading_digits(s@.skip(i as int)),
        decreases n - i,
    {
        assert(s@.skip(i as int).drop_first() =~= s@.skip(i + 1));
        i = i + 1;
    }
    if i < n {
        assert(s@.skip(i as int)[0] == s@[i as int]);
    }
    i - from
}

fn is_ascii_digit(c: char) -> (r: bool)
    ensures
        r == is_digit(c),
{
    '0' <= c && c <= '9'
}

/// Whether `a` is greater than `b` in text order, for texts of equal length.
fn text_greater(a: &str, b: &str) -> (r: bool)
    requires
        a@.len() == b@.len(),
    ensures
        r == lex_greater(a@, b@),
{
    let n = a.unicode_len();
    let mut i: usize = 0;
    assert(a@.skip(0) =~= a@ && b@.skip(0) =~= b@);
    while i < n
        invariant
            i <= n,
            n == a@.len(),
            a@.len() == b@.len(),
            lex_greater(a@, b@) == lex_greater(a@.skip(i as int), b@.skip(i as int)),
        decreases n - i,
    {
        let x = a.get_char(i);
        let y = b.get_char(i);
        assert(a@.skip(i as int)[0] == x && b@.skip(i as int)[0] == y);
        if x != y {
            return x > y;
        }
        assert(a@.skip(i as int).drop_first() =~= a@.skip(i + 1));
        assert(b@.skip(i as int).drop_first() =~= b@.skip(i + 1));
        i = i + 1;
    }
    false
}

pub proof fn lemma_leading_digits_bound(s: Seq<char>)
    ensures
        leading_digits(s) <= s.len(),
        forall|i: int| 0 <= i < leading_digits(s) ==> #[trigger] is_digit(s[i]),
    decreases s.len(),
{
    if s.len() > 0 && is_digit(s[0]) {
        lemma_leading_digits_bound(s.drop_first());
        assert forall|i: int| 0 <= i < leading_digits(s) implies #[trigger] is_digit(s[i]) by {
            if i > 0 {
                assert(s[i] == s.drop_first()[i - 1]);
            }
        }
    }
}

/// Whether the range check rejects the digits at the start of `value`.
fn digits_rejected(value: &str, signed: bool) -> (r: bool)
    requires
        value@.len() > 0,
        !starts_negative(value@) || leading_digits(value@.drop_first()) > 0,
    ensures
        r == digits_too_long(value@, signed),
{
    let is_negative = value.get_char(0) == '-';
    let first: usize = if is_negative {
        1
    } else {
        0
    };
    let d = count_digits(value, first);
    proof {
        if is_negative {
            assert(value@.drop_first() =~= value@.skip(1));
        }
    }
    let v = value.substring_char(first, d);
    assert(v@ == checked_digits(value@));
    let lim: &str = if is_negative {
        "170141183460469231731687303715884105728"
    } else if signed {
        "170141183460469231731687303715884105727"
    } else {
        "340282366920938463463374607431768211455"
    };
    assert(lim@ == magnitude_limit(starts_negative(value@), signed));
    let vl = v.unicode_len();
    let ll = lim.unicode_len();
    vl > ll || (vl == ll && text_greater(v, lim))
}

/// Reads a signed integer: `Err` as `integer_read` says, else the number
/// and the count of characters it took.
fn read_signed(value: &str, lo: i128, hi: i128) -> (r: Result<(i128, usize), ConversionError>)
    requires
        integer_readable(value@, true),
    ensures
        match integer_read(value@, lo as int, hi as int, true) {
            Ok((n, k)) => r matches Ok((m, j)) && m == n && j == k,
            Err(e) => r == Err::<(i128, usize), ConversionError>(e),
        },
        r matches Ok((m, j)) ==> j <= value@.len(),
{
    if value.unicode_len() == 0 {
        return Err(ConversionError::EmptyInput);
    }
    if digits_rejected(value, true) {
        return Err(ConversionError::OutOfRange);
    }
    proof {
        lemma_leading_digits_bound(value@.skip(sign_len(value@)));
    }
    let (num, tail) = atoi_i128_signed(value);
    if tail == 0 {
        return Err(ConversionError::Unparsable);
    }
    if num < lo || num > hi {
        return Err(ConversionError::OutOfRange);
    }
    Ok((num, tail))
}

/// Reads an unsigned integer: `Err` as `integer_read` says, else the number
/// and the count of characters it took.
fn read_unsigned(value: &str, hi: u128) -> (r: Result<(u128, usize), ConversionError>)
    requires
        integer_readable(value@, false),
    ensures
        match integer_read(value@, 0, hi as int, false) {
            Ok((n, k)) => r matches Ok((m, j)) && m == n && j == k,
            Err(e) => r == Err::<(u128, usize), ConversionError>(e),
        },
        r matches Ok((m, j)) ==> j <= value@.len(),
{
    if value.unicode_len() == 0 {
        return Err(ConversionError::EmptyInput);
    }
    if digits_rejected(value, false) {
        return Err(ConversionError::OutOfRange);
    }
    proof {
        lemma_leading_digits_bound(value@);
    }
    let (num, tail) = atoi_u128(value);
    if tail == 0 {
        return Err(ConversionError::Unparsable);
    }
    if num > hi {
        return Err(ConversionError::OutOfRange);
    }
    Ok((num, tail))
}

/// Reads an integer in `lo..=hi` of a signed type from the start of
/// `input`; on success `input` is left after it, otherwise unchanged.
pub fn extract_signed(input: &mut &str, lo: i128, hi: i128) -> (r: Result<i128, ConversionError>)
    requires
        integer_readable(old(input)@, true),
    ensures
        match integer_read(old(input)@, lo as int, hi as int, true) {
            Ok((n, k)) => r == Ok::<i128, ConversionError>(n as i128) && final(input)@ == old(
                input,
            )@.skip(k as int),
            Err(e) => r == Err::<i128, ConversionError>(e) && final(input)@ == old(input)@,
        },
        integer_read(old(input)@, lo as int, hi as int, true) matches Ok((n, k)) ==> k <= old(
            input,
        )@.len(),
{
    let value: &str = *input;
    match read_signed(value, lo, hi) {
        Ok((num, tail)) => {
            let n = value.unicode_len();
            *input = value.substring_char(tail, n);
            Ok(num)
        },
        Err(e) => Err(e),
    }
}

/// Reads an integer in `0..=hi` of an unsigned type from the start of
/// `input`; on success `input` is left after it, otherwise unchanged.
pub fn extract_unsigned(input: &mut &str, hi: u128) -> (r: Result<u128, ConversionError>)
    requires
        integer_readable(old(input)@, false),
    ensures
        match integer_read(old(input)@, 0, hi as int, false) {
            Ok((n, k)) => r == Ok::<u128, ConversionError>(n as u128) && final(input)@ == old(
                input,
            )@.skip(k as int),
            Err(e) => r == Err::<u128, ConversionError>(e) && final(input)@ == old(input)@,
        },
        integer_read(old(input)@, 0, hi as int, false) matches Ok((n, k)) ==> k <= old(
            input,
        )@.len(),
{
    let value: &str = *input;
    match read_unsigned(value, hi) {
        Ok((num, tail)) => {
            let n = value.unicode_len();
            *input = value.substring_char(tail, n);
            Ok(num)
        },
        Err(e) => Err(e),
    }
}

} // verus!
