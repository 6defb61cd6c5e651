//! Conversions of binary data and UUIDs, which are read from hexadecimal text.
use vstd::prelude::*;
use vstd::string::StrSliceExecFns;
use crate::as_value::AsValue;
use crate::parse_int::ConversionError;
use crate::util::consume_while;
use crate::value::Value;

verus! {

/// The value of a hexadecimal digit (either case), if it is one.
pub open spec fn hex_value(c: char) -> Option<nat> {
    if '0' <= c <= '9' {
        Some((c as nat - '0' as nat) as nat)
    } else if 'a' <= c <= 'f' {
        Some((c as nat - 'a' as nat + 10) as nat)
    } else if 'A' <= c <= 'F' {
        Some((c as nat - 'A' as nat + 10) as nat)
    } else {
        None
    }
}

/// Whether the character is a hexadecimal digit.
pub open spec fn is_hex(c: char) -> bool {
    hex_value(c) is Some
}

/// Whether every character is a hexadecimal digit.
pub open spec fn all_hex(s: Seq<char>) -> bool {
    forall|i: int| 0 <= i < s.len() ==> #[trigger] is_hex(s[i])
}

/// The number written by hexadecimal digits.
pub open spec fn hex_number(s: Seq<char>) -> nat
    decreases s.len(),
{
    if s.len() == 0 {
        0
    } else {
        hex_number(s.drop_last()) * 16 + match hex_value(s.last()) {
            Some(v) => v,
            None => 0,
        }
    }
}

/// The bytes written by pairs of hexadecimal digits.
pub open spec fn hex_bytes(s: Seq<char>) -> Seq<u8>
    decreases s.len(),
{
    if s.len() < 2 {
        Seq::empty()
    } else {
        seq![hex_number(s.take(2)) as u8] + hex_bytes(s.skip(2))
    }
}

/// `hex::decode`: the bytes written by pairs of hexadecimal digits (either
/// case); `None` for an odd number of characters or a character that is no
/// hexadecimal digit.
#[verifier::external_body]
fn hex_decode(s: &str) -> (r: Option<Vec<u8>>)
    ensures
        r is Some <==> (s@.len() % 2 == 0 && all_hex(s@)),
        r matches Some(v) ==> v@ == hex_bytes(s@),
{
    hex::decode(s).ok()
}

/// The 32 hexadecimal digits of a hyphenated UUID, without its hyphens.
pub open spec fn uuid_digits(s: Seq<char>) -> Seq<char> {
    s.take(8) + s.subrange(9, 13) + s.subrange(14, 18) + s.subrange(19, 23) + s.skip(24)
}

/// A hyphenated UUID: 36 characters, hyphens at positions 8, 13, 18 and 23,
/// hexadecimal digits elsewhere; its number.
pub open spec fn hyphenated_uuid(s: Seq<char>) -> Option<nat> {
    if s.len() == 36 && s[8] == '-' && s[13] == '-' && s[18] == '-' && s[23] == '-' && all_hex(
        uuid_digits(s),
    ) {
        Some(hex_number(uuid_digits(s)))
    } else {
        None
    }
}

/// Whether every character is ASCII.
pub open spec fn all_ascii(s: Seq<char>) -> bool {
    forall|i: int| 0 <= i < s.len() ==> (#[trigger] s[i] as u32) < 128
}

/// `uuid::Uuid::parse_str` on 36 ASCII characters: the number of a
/// hyphenated UUID (see [`hyphenated_uuid`]).
#[verifier::external_body]
fn uuid_parse(s: &str) -> (r: Option<u128>)
    requires
        s@.len() == 36,
        all_ascii(s@),
    ensures
        r matches Some(v) ==> hyphenated_uuid(s@) == Some(v as nat),
        r is None <==> hyphenated_uuid(s@) is None,
{
    uuid::Uuid::parse_str(s).ok().map(|u| u.as_u128())
}

fn is_hex_digit(c: char) -> (r: bool)
    ensures
        r == is_hex(c),
{
    ('0' <= c && c <= '9') || ('a' <= c && c <= 'f') || ('A' <= c && c <= 'F')
}

/// Binary data.
#[derive(Debug, PartialEq, Eq)]
pub struct Blob(pub Vec<u8>);

/// The number of hexadecimal digits the text starts with.
pub open spec fn hex_run(s: Seq<char>) -> nat
    decreases s.len(),
{
    if s.len() > 0 && is_hex(s[0]) {
        1 + hex_run(s.drop_first())
    } else {
        0
    }
}

proof fn lemma_hex_run(s: Seq<char>, k: int)
    requires
        0 <= k <= s.len(),
        forall|i: int| 0 <= i < k ==> is_hex(#[trigger] s[i]),
        k < s.len() ==> !is_hex(s[k]),
    ensures
        hex_run(s) == k,
    decreases k,
{
    if k > 0 {
        assert forall|i: int| 0 <= i < k - 1 implies is_hex(#[trigger] s.drop_first()[i]) by {
            assert(s.drop_first()[i] == s[i + 1]);
        }
        if k < s.len() {
            assert(s.drop_first()[k - 1] == s[k]);
        }
        lemma_hex_run(s.drop_first(), k - 1);
    }
}

/// The text after an optional leading `\x` (either case).
pub open spec fn after_hex_prefix(s: Seq<char>) -> Seq<char> {
    if s[0] == '\\' && (s[1] == 'x' || s[1] == 'X') {
        s.skip(2)
    } else {
        s
    }
}

/// Reading binary data from the start of the text: an optional `\x`, then
/// hexadecimal digits in pairs; the bytes and how many characters were read.
pub open spec fn blob_read(s: Seq<char>) -> Result<(Seq<u8>, nat), ConversionError> {
    let rest = after_hex_prefix(s);
    let digits = rest.take(hex_run(rest) as int);
    if digits.len() % 2 == 0 {
        Ok((hex_bytes(digits), (s.len() - rest.len() + digits.len()) as nat))
    } else {
        Err(ConversionError::Unparsable)
    }
}

/// What converting a value to binary data gives.
pub open spec fn blob_from_value(v: Value) -> Result<Seq<u8>, ConversionError> {
    match v {
        Value::Blob(Some(b)) => Ok(b@),
        Value::Unknown(Some(s)) => match blob_read(s@) {
            Ok((b, k)) => if k == s@.len() {
                Ok(b)
            } else {
                Err(ConversionError::TrailingInput)
            },
            Err(e) => Err(e),
        },
        _ => Err(ConversionError::Incompatible),
    }
}

/// Whether binary data can be read from the start of the text: its first
/// two bytes are there and are whole characters.
pub open spec fn blob_readable(s: Seq<char>) -> bool {
    s.len() >= 2 && (s[0] as u32) < 128 && (s[1] as u32) < 128
}

/// Reads binary data from the start of `input` (see [`blob_read`]); on an
/// error `input` is unchanged.
pub fn extract_blob(input: &mut &str) -> (r: Result<Blob, ConversionError>)
    requires
        blob_readable(old(input)@),
    ensures
        match blob_read(old(input)@) {
            Ok((b, k)) => r matches Ok(x) && x.0@ == b && final(input)@ == old(input)@.skip(k as int),
            Err(e) => r == Err::<Blob, ConversionError>(e) && final(input)@ == old(input)@,
        },
{
    let full: &str = *input;
    let n = full.unicode_len();
    let mut value: &str = full;
    let c0 = full.get_char(0);
    let c1 = full.get_char(1);
    if c0 == '\\' && (c1 == 'x' || c1 == 'X') {
        value = full.substring_char(2, n);
    }
    let ghost rest = value@;
    assert(rest == after_hex_prefix(full@));
    let hex = consume_while(&mut value, is_hex_digit);
    proof {
        lemma_hex_run(rest, hex@.len() as int);
        assert(full@.skip(full@.len() - rest.len() + hex@.len()) =~= rest.skip(hex@.len() as int));
    }
    match hex_decode(hex) {
        Some(bytes) => {
            *input = value;
            Ok(Blob(bytes))
        },
        None => {
            assert(all_hex(hex@)) by {
                assert forall|i: int| 0 <= i < hex@.len() implies #[trigger] is_hex(hex@[i]) by {
                    assert(call_ensures(is_hex_digit, (rest[i],), true));
                }
            }
            Err(ConversionError::Unparsable)
        },
    }
}

impl AsValue for Blob {
    open spec fn converts(value: Value, result: Result<Blob, ConversionError>) -> bool {
        match blob_from_value(value) {
            Ok(b) => result matches Ok(x) && x.0@ == b,
            Err(e) => result == Err::<Blob, ConversionError>(e),
        }
    }

    open spec fn spec_empty() -> Value {
        Value::Blob(None)
    }

    open spec fn valued(self, v: Value) -> bool {
        v == Value::Blob(Some(self.0))
    }

    /// Reading binary data from text looks at its first two bytes, which
    /// must be there and be whole characters.
    open spec fn readable(value: Value) -> bool {
        value matches Value::Unknown(Some(s)) ==> s@.len() >= 2 && (s@[0] as u32) < 128 && (
        s@[1] as u32) < 128
    }

    fn as_empty_value() -> (r: Value)
        ensures
            r == Value::Blob(None),
    {
        Value::Blob(None)
    }

    fn as_value(self) -> (r: Value)
        ensures
            r == Value::Blob(Some(self.0)),
    {
        Value::Blob(Some(self.0))
    }

    fn try_from_value(value: Value) -> (r: Result<Blob, ConversionError>)
        ensures
            match blob_from_value(value) {
                Ok(b) => r matches Ok(x) && x.0@ == b,
                Err(e) => r == Err::<Blob, ConversionError>(e),
            },
    {
        match value {
            Value::Blob(Some(b)) => Ok(Blob(b)),
            Value::Unknown(Some(s)) => {
                let full: &str = s.as_str();
                let n = full.unicode_len();
                let mut value: &str = full;
                let c0 = full.get_char(0);
                let c1 = full.get_char(1);
                if c0 == '\\' && (c1 == 'x' || c1 == 'X') {
                    value = full.substring_char(2, n);
                }
                let ghost rest = value@;
                assert(rest == after_hex_prefix(s@));
                let hex = consume_while(&mut value, is_hex_digit);
                proof {
                    lemma_hex_run(rest, hex@.len() as int);
                }
                match hex_decode(hex) {
                    Some(bytes) => {
                        if value.unicode_len() == 0 {
                            Ok(Blob(bytes))
                        } else {
                            Err(ConversionError::TrailingInput)
                        }
                    },
                    None => {
                        assert(all_hex(hex@)) by {
                            assert forall|i: int| 0 <= i < hex@.len() implies #[trigger] is_hex(
                                hex@[i],
                            ) by {
                                assert(call_ensures(is_hex_digit, (rest[i],), true));
                            }
                        }
                        Err(ConversionError::Unparsable)
                    },
                }
            },
            _ => Err(ConversionError::Incompatible),
        }
    }

    open spec fn extract_readable(s: Seq<char>) -> bool {
        blob_readable(s)
    }

    open spec fn extracts(s: Seq<char>, result: Result<Blob, ConversionError>, rest: Seq<char>) -> bool {
        match blob_read(s) {
            Ok((b, k)) => result matches Ok(x) && x.0@ == b && rest == s.skip(k as int),
            Err(e) => result == Err::<Blob, ConversionError>(e) && rest == s,
        }
    }

    fn extract(input: &mut &str) -> (r: Result<Blob, ConversionError>) {
        extract_blob(input)
    }
}

/// A UUID, by its number.
#[derive(Clone, Copy, Debug, PartialEq, Eq, Structural)]
pub struct UuidValue(pub u128);

/// Reading a UUID from the start of the text: its first 36 characters as a
/// hyphenated UUID.
pub open spec fn uuid_read(s: Seq<char>) -> Result<(u128, nat), ConversionError> {
    match hyphenated_uuid(s.take(36)) {
        Some(v) => Ok((v as u128, 36)),
        None => Err(ConversionError::Unparsable),
    }
}

/// Reading a UUID from the whole text.
pub open spec fn uuid_parsed(s: Seq<char>) -> Result<u128, ConversionError> {
    match uuid_read(s) {
        Ok((v, k)) => if k == s.len() {
            Ok(v)
        } else {
            Err(ConversionError::TrailingInput)
        },
        Err(e) => Err(e),
    }
}

/// What converting a value to a UUID gives.
pub open spec fn uuid_from_value(v: Value) -> Result<u128, ConversionError> {
    match v {
        Value::Uuid(Some(u)) => Ok(u),
        Value::Varchar(Some(s)) => uuid_parsed(s@),
        Value::Unknown(Some(s)) => uuid_parsed(s@),
        _ => Err(ConversionError::Incompatible),
    }
}

/// Whether a UUID can be read from the text: its first 36 bytes are there
/// and are whole characters.
pub open spec fn uuid_readable(s: Seq<char>) -> bool {
    s.len() >= 36 && all_ascii(s.take(36))
}

fn parse_uuid_text(s: &str) -> (r: Result<u128, ConversionError>)
    requires
        uuid_readable(s@),
    ensures
        r == uuid_parsed(s@),
{
    let n = s.unicode_len();
    let head = s.substring_char(0, 36);
    assert(head@ == s@.take(36));
    match uuid_parse(head) {
        Some(v) => if n == 36 {
            Ok(v)
        } else {
            Err(ConversionError::TrailingInput)
        },
        None => Err(ConversionError::Unparsable),
    }
}

/// Reads a UUID from the start of `input` (see [`uuid_read`]); on an error
/// `input` is unchanged.
pub fn extract_uuid(input: &mut &str) -> (r: Result<UuidValue, ConversionError>)
    requires
        uuid_readable(old(input)@),
    ensures
        match uuid_read(old(input)@) {
            Ok((v, k)) => r == Ok::<UuidValue, ConversionError>(UuidValue(v)) && final(input)@ == old(input)@.skip(k as int),
            Err(e) => r == Err::<UuidValue, ConversionError>(e) && final(input)@ == old(input)@,
        },
{
    let value: &str = *input;
    let n = value.unicode_len();
    let head = value.substring_char(0, 36);
    assert(head@ == value@.take(36));
    match uuid_parse(head) {
        Some(v) => {
            *input = value.substring_char(36, n);
            Ok(UuidValue(v))
        },
        None => Err(ConversionError::Unparsable),
    }
}

impl AsValue for UuidValue {
    open spec fn converts(value: Value, result: Result<UuidValue, ConversionError>) -> bool {
        match uuid_from_value(value) {
            Ok(u) => result == Ok::<UuidValue, ConversionError>(UuidValue(u)),
            Err(e) => result == Err::<UuidValue, ConversionError>(e),
        }
    }

    open spec fn spec_empty() -> Value {
        Value::Uuid(None)
    }

    open spec fn valued(self, v: Value) -> bool {
        v == Value::Uuid(Some(self.0))
    }

    /// Reading a UUID from text takes its first 36 bytes.
    open spec fn readable(value: Value) -> bool {
        &&& value matches Value::Varchar(Some(s)) ==> uuid_readable(s@)
        &&& value matches Value::Unknown(Some(s)) ==> uuid_readable(s@)
    }

    fn as_empty_value() -> (r: Value)
        ensures
            r == Value::Uuid(None),
    {
        Value::Uuid(None)
    }

    fn as_value(self) -> (r: Value)
        ensures
            r == Value::Uuid(Some(self.0)),
    {
        Value::Uuid(Some(self.0))
    }

    fn try_from_value(value: Value) -> (r: Result<UuidValue, ConversionError>)
        ensures
            match uuid_from_value(value) {
                Ok(u) => r == Ok::<UuidValue, ConversionError>(UuidValue(u)),
                Err(e) => r == Err::<UuidValue, ConversionError>(e),
            },
    {
        match value {
            Value::Uuid(Some(u)) => Ok(UuidValue(u)),
            Value::Varchar(Some(s)) => match parse_uuid_text(s.as_str()) {
                Ok(u) => Ok(UuidValue(u)),
                Err(e) => Err(e),
            },
            Value::Unknown(Some(s)) => match parse_uuid_text(s.as_str()) {
                Ok(u) => Ok(UuidValue(u)),
                Err(e) => Err(e),
            },
            _ => Err(ConversionError::Incompatible),
        }
    }

    open spec fn extract_readable(s: Seq<char>) -> bool {
        uuid_readable(s)
    }

    open spec fn extracts(s: Seq<char>, result: Result<UuidValue, ConversionError>, rest: Seq<char>) -> bool {
        match uuid_read(s) {
            Ok((v, k)) => result == Ok::<UuidValue, ConversionError>(UuidValue(v)) && rest == s.skip(k as int),
            Err(e) => result == Err::<UuidValue, ConversionError>(e) && rest == s,
        }
    }

    fn extract(input: &mut &str) -> (r: Result<UuidValue, ConversionError>) {
        extract_uuid(input)
    }
}

} // verus!
