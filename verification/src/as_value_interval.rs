//! Reading intervals from text, such as `1 year 2 mons 3 days 04:05:06.789`,
//! and converting SQL values to intervals.
use vstd::prelude::*;
use vstd::string::StrSliceExecFns;
use crate::interval::{
    Interval, IntervalUnit, combine_fits, nanos_per_day, spec_combine, tdiv, trem,
    lemma_tdiv_trem,
};
use crate::parse_int::{
    ConversionError, extract_signed, integer_read, integer_readable,
    lemma_leading_digits_bound, radix_unsigned, sign_len,
};
use crate::as_value::{AsValue, eq_ignore_case, eq_ignore_ascii_case};
use crate::value::Value;

verus! {

/// `char::is_whitespace`: whether the character has Unicode's `White_Space`
/// property.
pub uninterp spec fn white_space(c: char) -> bool;

/// `char::is_whitespace`, whose result is named `white_space`.
#[verifier::external_body]
fn char_is_whitespace(c: char) -> (r: bool)
    ensures
        r == white_space(c),
{
    c.is_whitespace()
}

/// Whether `u8::is_ascii_whitespace` holds of the character: space, tab,
/// line feed, form feed or carriage return.
pub open spec fn ascii_space(c: char) -> bool {
    c == ' ' || c == '\t' || c == '\n' || c == '\x0C' || c == '\r'
}

/// Whether the character is an ASCII letter.
pub open spec fn ascii_letter(c: char) -> bool {
    ('a' <= c && c <= 'z') || ('A' <= c && c <= 'Z')
}

/// The count of leading characters of `s` that satisfy `p`.
pub open spec fn prefix_len(s: Seq<char>, p: spec_fn(char) -> bool) -> nat
    decreases s.len(),
{
    if s.len() > 0 && p(s[0]) {
        1 + prefix_len(s.drop_first(), p)
    } else {
        0
    }
}

/// `s` without its leading Unicode white space (`str::trim_start`).
pub open spec fn trim_space(s: Seq<char>) -> Seq<char> {
    s.skip(prefix_len(s, |c: char| white_space(c)) as int)
}

/// `s` without its leading ASCII white space (`str::trim_ascii_start`).
pub open spec fn trim_ascii_space(s: Seq<char>) -> Seq<char> {
    s.skip(prefix_len(s, |c: char| ascii_space(c)) as int)
}

/// The count of leading ASCII letters.
pub open spec fn letters_len(s: Seq<char>) -> nat {
    prefix_len(s, |c: char| ascii_letter(c))
}

/// A leading count is at most the length, its characters satisfy the
/// predicate and the next one does not.
pub proof fn lemma_prefix_len(s: Seq<char>, p: spec_fn(char) -> bool)
    ensures
        prefix_len(s, p) <= s.len(),
        forall|i: int| 0 <= i < prefix_len(s, p) ==> #[trigger] p(s[i]),
        prefix_len(s, p) < s.len() ==> !p(s[prefix_len(s, p) as int]),
    decreases s.len(),
{
    if s.len() > 0 && p(s[0]) {
        lemma_prefix_len(s.drop_first(), p);
        assert forall|i: int| 0 <= i < prefix_len(s, p) implies #[trigger] p(s[i]) by {
            if i > 0 {
                assert(s[i] == s.drop_first()[i - 1]);
            }
        }
    }
}

/// The count of leading characters from position `from` with Unicode's
/// `White_Space` property.
fn space_from(s: &str, from: usize) -> (r: usize)
    requires
        from <= s@.len(),
    ensures
        r == from + prefix_len(s@.skip(from as int), |c: char| white_space(c)),
        r <= s@.len(),
{
    let ghost p = |c: char| white_space(c);
    let n = s.unicode_len();
    let mut i = from;
    while i < n && char_is_whitespace(s.get_char(i))
        invariant
            from <= i <= n,
            n == s@.len(),
            p == (|c: char| white_space(c)),
            prefix_len(s@.skip(from as int), p) == (i - from) + prefix_len(s@.skip(i as int), p),
        decreases n - i,
    {
        assert(s@.skip(i as int)[0] == s@[i as int]);
        assert(s@.skip(i as int).drop_first() =~= s@.skip(i + 1));
        i = i + 1;
    }
    if i < n {
        assert(s@.skip(i as int)[0] == s@[i as int]);
    }
    i
}

/// The count of leading ASCII white space characters from position `from`.
fn ascii_space_from(s: &str, from: usize) -> (r: usize)
    requires
        from <= s@.len(),
    ensures
        r == from + prefix_len(s@.skip(from as int), |c: char| ascii_space(c)),
        r <= s@.len(),
{
    let ghost p = |c: char| ascii_space(c);
    let n = s.unicode_len();
    let mut i = from;
    while i < n && is_ascii_space(s.get_char(i))
        invariant
            from <= i <= n,
            n == s@.len(),
            p == (|c: char| ascii_space(c)),
            prefix_len(s@.skip(from as int), p) == (i - from) + prefix_len(s@.skip(i as int), p),
        decreases n - i,
    {
        assert(s@.skip(i as int)[0] == s@[i as int]);
        assert(s@.skip(i as int).drop_first() =~= s@.skip(i + 1));
        i = i + 1;
    }
    if i < n {
        assert(s@.skip(i as int)[0] == s@[i as int]);
    }
    i
}

/// The count of leading ASCII letters from position `from`.
fn letters_from(s: &str, from: usize) -> (r: usize)
    requires
        from <= s@.len(),
    ensures
        r == from + letters_len(s@.skip(from as int)),
        r <= s@.len(),
{
    let ghost p = |c: char| ascii_letter(c);
    let n = s.unicode_len();
    let mut i = from;
    while i < n && is_ascii_letter(s.get_char(i))
        invariant
            from <= i <= n,
            n == s@.len(),
            p == (|c: char| ascii_letter(c)),
            prefix_len(s@.skip(from as int), p) == (i - from) + prefix_len(s@.skip(i as int), p),
        decreases n - i,
    {
        assert(s@.skip(i as int)[0] == s@[i as int]);
        assert(s@.skip(i as int).drop_first() =~= s@.skip(i + 1));
        i = i + 1;
    }
    if i < n {
        assert(s@.skip(i as int)[0] == s@[i as int]);
    }
    i
}

/// The count of leading ASCII letters.
pub(crate) fn letters_count(s: &str) -> (r: usize)
    ensures
        r == letters_len(s@),
        r <= s@.len(),
{
    assert(s@.skip(0) =~= s@);
    letters_from(s, 0)
}

fn is_ascii_space(c: char) -> (r: bool)
    ensures
        r == ascii_space(c),
{
    c == ' ' || c == '\t' || c == '\n' || c == '\x0C' || c == '\r'
}

fn is_ascii_letter(c: char) -> (r: bool)
    ensures
        r == ascii_letter(c),
{
    ('a' <= c && c <= 'z') || ('A' <= c && c <= 'Z')
}

/// `s` without its leading Unicode white space.
pub fn trim_start(s: &str) -> (r: &str)
    ensures
        r@ == trim_space(s@),
{
    let k = space_from(s, 0);
    assert(s@.skip(0) =~= s@);
    s.substring_char(k, s.unicode_len())
}

/// `s` without its leading ASCII white space.
pub fn trim_ascii_start(s: &str) -> (r: &str)
    ensures
        r@ == trim_ascii_space(s@),
{
    let k = ascii_space_from(s, 0);
    assert(s@.skip(0) =~= s@);
    s.substring_char(k, s.unicode_len())
}

/// The unit that a word names, in any ASCII case: `y`, `year`, `years`;
/// `mon`, `mons`, `month`, `months`; `d`, `day`, `days`; `h`, `hour`,
/// `hours`; `min`, `mins`, `minute`, `minutes`; `s`, `sec`, `secs`,
/// `second`, `seconds`; `micro`, `micros`, `microsecond`, `microseconds`;
/// `ns`, `nano`, `nanos`, `nanosecond`, `nanoseconds`.
pub open spec fn unit_named(w: Seq<char>) -> Option<IntervalUnit> {
    if eq_ignore_case(w, "y"@) || eq_ignore_case(w, "year"@) || eq_ignore_case(w, "years"@) {
        Some(IntervalUnit::Year)
    } else if eq_ignore_case(w, "mon"@) || eq_ignore_case(w, "mons"@) || eq_ignore_case(
        w,
        "month"@,
    ) || eq_ignore_case(w, "months"@) {
        Some(IntervalUnit::Month)
    } else if eq_ignore_case(w, "d"@) || eq_ignore_case(w, "day"@) || eq_ignore_case(w, "days"@) {
        Some(IntervalUnit::Day)
    } else if eq_ignore_case(w, "h"@) || eq_ignore_case(w, "hour"@) || eq_ignore_case(
        w,
        "hours"@,
    ) {
        Some(IntervalUnit::Hour)
    } else if eq_ignore_case(w, "min"@) || eq_ignore_case(w, "mins"@) || eq_ignore_case(
        w,
        "minute"@,
    ) || eq_ignore_case(w, "minutes"@) {
        Some(IntervalUnit::Minute)
    } else if eq_ignore_case(w, "s"@) || eq_ignore_case(w, "sec"@) || eq_ignore_case(w, "secs"@)
        || eq_ignore_case(w, "second"@) || eq_ignore_case(w, "seconds"@) {
        Some(IntervalUnit::Second)
    } else if eq_ignore_case(w, "micro"@) || eq_ignore_case(w, "micros"@) || eq_ignore_case(
        w,
        "microsecond"@,
    ) || eq_ignore_case(w, "microseconds"@) {
        Some(IntervalUnit::Microsecond)
    } else if eq_ignore_case(w, "ns"@) || eq_ignore_case(w, "nano"@) || eq_ignore_case(
        w,
        "nanos"@,
    ) || eq_ignore_case(w, "nanosecond"@) || eq_ignore_case(w, "nanoseconds"@) {
        Some(IntervalUnit::Nanosecond)
    } else {
        None
    }
}

/// The unit that a word names.
pub fn unit_of_word(w: &str) -> (r: Option<IntervalUnit>)
    ensures
        r == unit_named(w@),
{
    if eq_ignore_ascii_case(w, "y") || eq_ignore_ascii_case(w, "year") || eq_ignore_ascii_case(
        w,
        "years",
    ) {
        Some(IntervalUnit::Year)
    } else if eq_ignore_ascii_case(w, "mon") || eq_ignore_ascii_case(w, "mons")
        || eq_ignore_ascii_case(w, "month") || eq_ignore_ascii_case(w, "months") {
        Some(IntervalUnit::Month)
    } else if eq_ignore_ascii_case(w, "d") || eq_ignore_ascii_case(w, "day") || eq_ignore_ascii_case(
        w,
        "days",
    ) {
        Some(IntervalUnit::Day)
    } else if eq_ignore_ascii_case(w, "h") || eq_ignore_ascii_case(w, "hour")
        || eq_ignore_ascii_case(w, "hours") {
        Some(IntervalUnit::Hour)
    } else if eq_ignore_ascii_case(w, "min") || eq_ignore_ascii_case(w, "mins")
        || eq_ignore_ascii_case(w, "minute") || eq_ignore_ascii_case(w, "minutes") {
        Some(IntervalUnit::Minute)
    } else if eq_ignore_ascii_case(w, "s") || eq_ignore_ascii_case(w, "sec") || eq_ignore_ascii_case(
        w,
        "secs",
    ) || eq_ignore_ascii_case(w, "second") || eq_ignore_ascii_case(w, "seconds") {
        Some(IntervalUnit::Second)
    } else if eq_ignore_ascii_case(w, "micro") || eq_ignore_ascii_case(w, "micros")
        || eq_ignore_ascii_case(w, "microsecond") || eq_ignore_ascii_case(w, "microseconds") {
        Some(IntervalUnit::Microsecond)
    } else if eq_ignore_ascii_case(w, "ns") || eq_ignore_ascii_case(w, "nano")
        || eq_ignore_ascii_case(w, "nanos") || eq_ignore_ascii_case(w, "nanosecond")
        || eq_ignore_ascii_case(w, "nanoseconds") {
        Some(IntervalUnit::Nanosecond)
    } else {
        None
    }
}

/// The interval that `count` of `unit` stands for. Counts of years, months,
/// days, hours, minutes and seconds are first cast to `i64` (wrapping);
/// counts of microseconds and nanoseconds are split into whole days and the
/// remaining nanoseconds.
pub open spec fn unit_term(unit: IntervalUnit, count: i128) -> Interval {
    let n = count as i64;
    match unit {
        IntervalUnit::Year => Interval { months: (n * 12) as i64, days: 0, nanos: 0 },
        IntervalUnit::Month => Interval { months: n, days: 0, nanos: 0 },
        IntervalUnit::Day => Interval { months: 0, days: n, nanos: 0 },
        IntervalUnit::Hour => Interval {
            months: 0,
            days: tdiv(n as int, 24) as i64,
            nanos: (trem(n as int, 24) * 3_600_000_000_000) as i128,
        },
        IntervalUnit::Minute => Interval {
            months: 0,
            days: tdiv(n as int, 1440) as i64,
            nanos: (trem(n as int, 1440) * 60_000_000_000) as i128,
        },
        IntervalUnit::Second => Interval {
            months: 0,
            days: tdiv(n as int, 86_400) as i64,
            nanos: (trem(n as int, 86_400) * 1_000_000_000) as i128,
        },
        IntervalUnit::Microsecond => Interval {
            months: 0,
            days: tdiv(count as int, 86_400_000_000) as i64,
            nanos: (trem(count as int, 86_400_000_000) * 1000) as i128,
        },
        IntervalUnit::Nanosecond => Interval {
            months: 0,
            days: tdiv(count as int, nanos_per_day()) as i64,
            nanos: trem(count as int, nanos_per_day()) as i128,
        },
    }
}

/// Building the term does not overflow: only a count of years, multiplied
/// by twelve, can.
pub open spec fn unit_term_fits(unit: IntervalUnit, count: i128) -> bool {
    unit == IntervalUnit::Year ==> i64::MIN <= (count as i64) * 12 <= i64::MAX
}

/// The interval that `count` of `unit` stands for.
pub fn term_of_unit(unit: IntervalUnit, count: i128) -> (r: Interval)
    requires
        unit_term_fits(unit, count),
    ensures
        r == unit_term(unit, count),
{
    let n = count as i64;
    match unit {
        IntervalUnit::Year => Interval::from_years(n),
        IntervalUnit::Month => Interval::from_months(n),
        IntervalUnit::Day => Interval::from_days(n),
        IntervalUnit::Hour => {
            proof {
                lemma_tdiv_trem(n as int, 24);
            }
            Interval::from_hours(n)
        },
        IntervalUnit::Minute => {
            proof {
                lemma_tdiv_trem(n as int, 1440);
            }
            Interval::from_mins(n)
        },
        IntervalUnit::Second => {
            proof {
                lemma_tdiv_trem(n as int, 86_400);
            }
            Interval::from_secs(n)
        },
        IntervalUnit::Microsecond => {
            proof {
                lemma_tdiv_trem(count as int, 86_400_000_000);
            }
            Interval::from_micros(count)
        },
        IntervalUnit::Nanosecond => {
            proof {
                lemma_tdiv_trem(count as int, nanos_per_day());
            }
            Interval::from_nanos(count)
        },
    }
}

/// What reading an interval, or a part of one, from a text comes to.
pub enum IntervalScan {
    /// The interval read, and the text left after it.
    Read(Interval, Seq<char>),
    /// The text does not hold an interval there.
    Rejected,
    /// Reading would overflow an integer or slice a text out of bounds.
    Panics,
}

/// The interval of zero length.
pub open spec fn zero_interval() -> Interval {
    Interval { months: 0, days: 0, nanos: 0 }
}

/// Reading the terms (a count, then a unit word) that start `t`, adding them
/// to `acc`. Reading stops before the first count that cannot be read or is
/// not followed by a word; a word that names no unit rejects the text.
pub open spec fn scan_terms(t: Seq<char>, acc: Interval) -> IntervalScan
    decreases t.len(),
{
    if !integer_readable(t, true) {
        IntervalScan::Panics
    } else {
        match integer_read(t, i128::MIN as int, i128::MAX as int, true) {
            Err(_) => IntervalScan::Read(acc, t),
            Ok((count, k)) => {
                let word = trim_space(t.skip(k as int));
                let w = letters_len(word);
                if w == 0 {
                    IntervalScan::Read(acc, t)
                } else {
                    match unit_named(word.take(w as int)) {
                        None => IntervalScan::Rejected,
                        Some(unit) => {
                            let term = unit_term(unit, count as i128);
                            if !unit_term_fits(unit, count as i128) || !combine_fits(
                                acc,
                                term,
                                false,
                            ) {
                                IntervalScan::Panics
                            } else {
                                proof {
                                    lemma_term_shrinks(t, k, word, w);
                                }
                                scan_terms(
                                    trim_space(word.skip(w as int)),
                                    spec_combine(acc, term, false),
                                )
                            }
                        },
                    }
                }
            },
        }
    }
}

/// A count that reads takes at least one and at most all characters.
pub proof fn lemma_integer_read_len(s: Seq<char>, lo: int, hi: int, signed: bool)
    ensures
        integer_read(s, lo, hi, signed) matches Ok((n, k)) ==> 0 < k <= s.len(),
{
    if s.len() > 0 {
        lemma_leading_digits_bound(s.skip(sign_len(s)));
        lemma_leading_digits_bound(s);
    }
}

/// Trimming takes nothing but characters from the front.
pub proof fn lemma_trim_len(s: Seq<char>)
    ensures
        trim_space(s).len() <= s.len(),
        trim_ascii_space(s).len() <= s.len(),
        letters_len(s) <= s.len(),
{
    lemma_prefix_len(s, |c: char| white_space(c));
    lemma_prefix_len(s, |c: char| ascii_space(c));
    lemma_prefix_len(s, |c: char| ascii_letter(c));
}

/// Reading a term leaves a shorter text.
pub proof fn lemma_term_shrinks(t: Seq<char>, k: nat, word: Seq<char>, w: nat)
    requires
        integer_read(t, i128::MIN as int, i128::MAX as int, true) matches Ok((n, j)) && j == k,
        word == trim_space(t.skip(k as int)),
        w == letters_len(word),
        w > 0,
    ensures
        trim_space(word.skip(w as int)).len() < t.len(),
{
    lemma_integer_read_len(t, i128::MIN as int, i128::MAX as int, true);
    lemma_trim_len(t.skip(k as int));
    lemma_trim_len(word);
    lemma_trim_len(word.skip(w as int));
}

/// Reads the terms at the start of `s`, as `scan_terms` from zero says.
fn read_terms<'a>(s: &'a str) -> (r: Result<(Interval, &'a str), ConversionError>)
    requires
        !(scan_terms(s@, zero_interval()) is Panics),
    ensures
        match scan_terms(s@, zero_interval()) {
            IntervalScan::Read(iv, rest) => r matches Ok((x, t)) && x == iv && t@ == rest,
            _ => r == Err::<(Interval, &'a str), ConversionError>(ConversionError::Unparsable),
        },
{
    let mut acc = Interval::zero();
    let mut value: &'a str = s;
    loop
        invariant
            scan_terms(s@, zero_interval()) == scan_terms(value@, acc),
            !(scan_terms(value@, acc) is Panics),
        ensures
            scan_terms(s@, zero_interval()) == IntervalScan::Read(acc, value@),
        decreases value@.len(),
    {
        let mut cur: &'a str = value;
        let count = match extract_signed(&mut cur, i128::MIN, i128::MAX) {
            Ok(c) => c,
            Err(_) => {
                break;
            },
        };
        let ghost k = (value@.len() - cur@.len()) as nat;
        proof {
            lemma_integer_read_len(value@, i128::MIN as int, i128::MAX as int, true);
        }
        let word = trim_start(cur);
        let n = word.unicode_len();
        let w = letters_from(word, 0);
        assert(word@.skip(0) =~= word@);
        if w == 0 {
            break;
        }
        let unit = match unit_of_word(word.substring_char(0, w)) {
            Some(u) => u,
            None => {
                return Err(ConversionError::Unparsable);
            },
        };
        let term = term_of_unit(unit, count);
        proof {
            lemma_term_shrinks(value@, k, word@, w as nat);
        }
        acc = acc.combine(term, false);
        value = trim_start(word.substring_char(w, n));
    }
    Ok((acc, value))
}

/// `u64::from_radix_10` (atoi) on the text's bytes: the number written by
/// the leading ASCII digits and their count. The number must fit in a
/// `u64`: the crate's arithmetic overflows otherwise.
#[verifier::external_body]
fn atoi_u64(s: &str) -> (r: (u64, usize))
    requires
        radix_unsigned(s@).0 <= u64::MAX,
    ensures
        r.0 == radix_unsigned(s@).0,
        r.1 == radix_unsigned(s@).1,
{
    <u64 as atoi::FromRadix10>::from_radix_10(s.as_bytes())
}

/// `i128::from_radix_10` (atoi) on the text's bytes: the number written by
/// the leading ASCII digits (no sign is read) and their count. The number
/// must fit in an `i128`: the crate's arithmetic overflows otherwise.
#[verifier::external_body]
pub(crate) fn atoi_i128(s: &str) -> (r: (i128, usize))
    requires
        radix_unsigned(s@).0 <= i128::MAX,
    ensures
        r.0 == radix_unsigned(s@).0,
        r.1 == radix_unsigned(s@).1,
{
    <i128 as atoi::FromRadix10>::from_radix_10(s.as_bytes())
}

/// The interval of `v` milliseconds, split into whole days and the
/// remaining nanoseconds.
pub open spec fn millis_term(v: i128) -> Interval {
    Interval {
        months: 0,
        days: tdiv(v as int, 86_400_000) as i64,
        nanos: (trem(v as int, 86_400_000) * 1_000_000) as i128,
    }
}

/// The factor that brings a fraction of `digits` digits to a whole number of
/// milliseconds, microseconds or nanoseconds: 100, 10 or 1 as the count of
/// digits after the first is 0, 1 or 2 modulo 3.
pub open spec fn fraction_factor(digits: nat) -> int {
    let d = (digits - 1) % 3;
    if d == 0 {
        100
    } else if d == 1 {
        10
    } else {
        1
    }
}

/// Reading the digits of a fraction of a second (after the `.`) and adding
/// them to `time`: up to three digits are milliseconds, up to six
/// microseconds, up to nine nanoseconds; more are rejected.
pub open spec fn scan_fraction(v: Seq<char>, time: Interval) -> IntervalScan {
    let (frac, tail) = radix_unsigned(v);
    if frac > i128::MAX {
        IntervalScan::Panics
    } else if tail == 0 {
        IntervalScan::Rejected
    } else if frac * fraction_factor(tail) > i128::MAX {
        IntervalScan::Panics
    } else {
        let scaled = (frac * fraction_factor(tail)) as i128;
        let magnitude = (tail - 1) / 3;
        let part = if magnitude == 0 {
            millis_term(scaled)
        } else if magnitude == 1 {
            unit_term(IntervalUnit::Microsecond, scaled)
        } else {
            unit_term(IntervalUnit::Nanosecond, scaled)
        };
        if magnitude > 2 {
            IntervalScan::Rejected
        } else if !combine_fits(time, part, false) {
            IntervalScan::Panics
        } else {
            IntervalScan::Read(spec_combine(time, part, false), v.skip(tail as int))
        }
    }
}

/// The clock term of `n` units read as `u64` and cast to `i64`.
pub open spec fn clock_term(unit: IntervalUnit, n: nat) -> Interval {
    unit_term(unit, ((n as u64) as i64) as i128)
}

/// After the minutes: `:ss`, then optionally `.` and a fraction.
pub open spec fn scan_seconds(v: Seq<char>, time: Interval) -> IntervalScan {
    if v.len() > 0 && v[0] == ':' {
        let w = v.skip(1);
        let (secs, tail) = radix_unsigned(w);
        let part = clock_term(IntervalUnit::Second, secs);
        if secs > u64::MAX {
            IntervalScan::Panics
        } else if tail == 0 {
            IntervalScan::Rejected
        } else if !combine_fits(time, part, false) {
            IntervalScan::Panics
        } else {
            let rest = w.skip(tail as int);
            let time2 = spec_combine(time, part, false);
            if rest.len() > 0 && rest[0] == '.' {
                scan_fraction(rest.skip(1), time2)
            } else {
                IntervalScan::Read(time2, rest)
            }
        }
    } else {
        IntervalScan::Read(time, v)
    }
}

/// After the hours: `:mm`, then what `scan_seconds` reads.
pub open spec fn scan_minutes(v: Seq<char>, time: Interval) -> IntervalScan {
    if v.len() > 0 && v[0] == ':' {
        let w = v.skip(1);
        let (mins, tail) = radix_unsigned(w);
        let part = clock_term(IntervalUnit::Minute, mins);
        if mins > u64::MAX {
            IntervalScan::Panics
        } else if tail == 0 {
            IntervalScan::Rejected
        } else if !combine_fits(time, part, false) {
            IntervalScan::Panics
        } else {
            scan_seconds(w.skip(tail as int), spec_combine(time, part, false))
        }
    } else {
        IntervalScan::Read(time, v)
    }
}

/// Reading the clock part, `[-]hh[:mm[:ss[.fraction]]]`, and adding it to
/// (or, after `-`, subtracting it from) `interval`. Without hours nothing
/// is read, but a `-` and the ASCII space after it are still taken.
pub open spec fn scan_clock(v: Seq<char>, interval: Interval) -> IntervalScan {
    let neg = v.len() > 0 && v[0] == '-';
    let v1 = if neg {
        trim_ascii_space(v.skip(1))
    } else {
        v
    };
    let (hours, tail) = radix_unsigned(v1);
    let h = clock_term(IntervalUnit::Hour, hours);
    if hours > u64::MAX {
        IntervalScan::Panics
    } else if tail == 0 {
        IntervalScan::Read(interval, v1)
    } else if !combine_fits(zero_interval(), h, false) {
        IntervalScan::Panics
    } else {
        match scan_minutes(v1.skip(tail as int), spec_combine(zero_interval(), h, false)) {
            IntervalScan::Read(time, rest) => if !combine_fits(interval, time, neg) {
                IntervalScan::Panics
            } else {
                IntervalScan::Read(spec_combine(interval, time, neg), rest)
            },
            other => other,
        }
    }
}

/// Whether `r` is what a reading whose outcome is `scan` returns: the
/// interval and the rest of the text, or `Unparsable` for a rejected text.
pub open spec fn scan_returns<'a>(
    scan: IntervalScan,
    r: Result<(Interval, &'a str), ConversionError>,
) -> bool {
    match scan {
        IntervalScan::Read(iv, rest) => r matches Ok((x, t)) && x == iv && t@ == rest,
        IntervalScan::Rejected => r == Err::<(Interval, &'a str), ConversionError>(
            ConversionError::Unparsable,
        ),
        IntervalScan::Panics => false,
    }
}

/// Whether the character at `i` is `c`.
pub(crate) fn char_at_is(s: &str, i: usize, c: char) -> (r: bool)
    ensures
        r == (i < s@.len() && s@[i as int] == c),
{
    i < s.unicode_len() && s.get_char(i) == c
}

/// Reads a fraction of a second as `scan_fraction` says.
fn read_fraction<'a>(v: &'a str, time: Interval) -> (r: Result<(Interval, &'a str), ConversionError>)
    requires
        !(scan_fraction(v@, time) is Panics),
    ensures
        scan_returns(scan_fraction(v@, time), r),
{
    proof {
        lemma_leading_digits_bound(v@);
    }
    let (num, tail) = atoi_i128(v);
    if tail == 0 {
        return Err(ConversionError::Unparsable);
    }
    let rest = v.substring_char(tail, v.unicode_len());
    let d = tail - 1;
    let factor: i128 = if d % 3 == 0 {
        100
    } else if d % 3 == 1 {
        10
    } else {
        1
    };
    let scaled = num * factor;
    let magnitude = d / 3;
    let part = if magnitude == 0 {
        Interval::from_millis(scaled)
    } else if magnitude == 1 {
        proof {
            lemma_tdiv_trem(scaled as int, 86_400_000_000);
        }
        Interval::from_micros(scaled)
    } else if magnitude == 2 {
        proof {
            lemma_tdiv_trem(scaled as int, nanos_per_day());
        }
        Interval::from_nanos(scaled)
    } else {
        return Err(ConversionError::Unparsable);
    };
    proof {
        lemma_tdiv_trem(scaled as int, 86_400_000);
    }
    Ok((time.combine(part, false), rest))
}

/// Reads `:ss` and a fraction after it as `scan_seconds` says.
fn read_seconds<'a>(v: &'a str, time: Interval) -> (r: Result<(Interval, &'a str), ConversionError>)
    requires
        !(scan_seconds(v@, time) is Panics),
    ensures
        scan_returns(scan_seconds(v@, time), r),
{
    if !char_at_is(v, 0, ':') {
        return Ok((time, v));
    }
    let w = v.substring_char(1, v.unicode_len());
    proof {
        lemma_leading_digits_bound(w@);
    }
    let (secs, tail) = atoi_u64(w);
    if tail == 0 {
        return Err(ConversionError::Unparsable);
    }
    let part = term_of_unit(IntervalUnit::Second, (secs as i64) as i128);
    let time2 = time.combine(part, false);
    let rest = w.substring_char(tail, w.unicode_len());
    if char_at_is(rest, 0, '.') {
        read_fraction(rest.substring_char(1, rest.unicode_len()), time2)
    } else {
        Ok((time2, rest))
    }
}

/// Reads `:mm` and what follows it as `scan_minutes` says.
fn read_minutes<'a>(v: &'a str, time: Interval) -> (r: Result<(Interval, &'a str), ConversionError>)
    requires
        !(scan_minutes(v@, time) is Panics),
    ensures
        scan_returns(scan_minutes(v@, time), r),
{
    if !char_at_is(v, 0, ':') {
        return Ok((time, v));
    }
    let w = v.substring_char(1, v.unicode_len());
    proof {
        lemma_leading_digits_bound(w@);
    }
    let (mins, tail) = atoi_u64(w);
    if tail == 0 {
        return Err(ConversionError::Unparsable);
    }
    let part = term_of_unit(IntervalUnit::Minute, (mins as i64) as i128);
    let time2 = time.combine(part, false);
    read_seconds(w.substring_char(tail, w.unicode_len()), time2)
}

/// Reads the clock part as `scan_clock` says.
fn read_clock<'a>(v: &'a str, interval: Interval) -> (r: Result<(Interval, &'a str), ConversionError>)
    requires
        !(scan_clock(v@, interval) is Panics),
    ensures
        scan_returns(scan_clock(v@, interval), r),
{
    let neg = char_at_is(v, 0, '-');
    let v1 = if neg {
        trim_ascii_start(v.substring_char(1, v.unicode_len()))
    } else {
        v
    };
    proof {
        lemma_leading_digits_bound(v1@);
    }
    let (hours, tail) = atoi_u64(v1);
    if tail == 0 {
        return Ok((interval, v1));
    }
    let h = term_of_unit(IntervalUnit::Hour, (hours as i64) as i128);
    let time = Interval::zero().combine(h, false);
    match read_minutes(v1.substring_char(tail, v1.unicode_len()), time) {
        Ok((t, rest)) => Ok((interval.combine(t, neg), rest)),
        Err(e) => Err(e),
    }
}

/// Reading an interval from the start of `s`: an optional opening quote
/// (`"` or `'`), the unit terms, the clock part, then the same quote again
/// and the ASCII space after it.
pub open spec fn interval_scan(s: Seq<char>) -> IntervalScan {
    let quoted = s.len() > 0 && (s[0] == '"' || s[0] == '\'');
    let body = if quoted {
        s.skip(1)
    } else {
        s
    };
    match scan_terms(body, zero_interval()) {
        IntervalScan::Read(acc, v) => match scan_clock(v, acc) {
            IntervalScan::Read(iv, w) => if !quoted {
                IntervalScan::Read(iv, w)
            } else if w.len() > 0 && w[0] == s[0] {
                IntervalScan::Read(iv, trim_ascii_space(w.skip(1)))
            } else {
                IntervalScan::Rejected
            },
            other => other,
        },
        other => other,
    }
}

/// Whether reading an interval from `s` completes.
pub open spec fn interval_readable(s: Seq<char>) -> bool {
    !(interval_scan(s) is Panics)
}

/// Reads an interval from the start of `input`: on success `input` is left
/// after it, otherwise unchanged and the error is `Unparsable`.
pub fn extract_interval(input: &mut &str) -> (r: Result<Interval, ConversionError>)
    requires
        interval_readable(old(input)@),
    ensures
        match interval_scan(old(input)@) {
            IntervalScan::Read(iv, rest) => {
                &&& r == Ok::<Interval, ConversionError>(iv)
                &&& final(input)@ == rest
            },
            _ => {
                &&& r == Err::<Interval, ConversionError>(ConversionError::Unparsable)
                &&& final(input)@ == old(input)@
            },
        },
{
    let full: &str = *input;
    let quoted = char_at_is(full, 0, '"') || char_at_is(full, 0, '\'');
    let body = if quoted {
        full.substring_char(1, full.unicode_len())
    } else {
        full
    };
    let (acc, v) = match read_terms(body) {
        Ok(x) => x,
        Err(e) => {
            return Err(e);
        },
    };
    let (iv, w) = match read_clock(v, acc) {
        Ok(x) => x,
        Err(e) => {
            return Err(e);
        },
    };
    if quoted {
        let b = full.get_char(0);
        if !char_at_is(w, 0, b) {
            return Err(ConversionError::Unparsable);
        }
        *input = trim_ascii_start(w.substring_char(1, w.unicode_len()));
    } else {
        *input = w;
    }
    Ok(iv)
}

/// Reading an interval from the whole text.
pub open spec fn interval_parsed(s: Seq<char>) -> Result<Interval, ConversionError> {
    match interval_scan(s) {
        IntervalScan::Read(iv, rest) => if rest.len() == 0 {
            Ok(iv)
        } else {
            Err(ConversionError::TrailingInput)
        },
        _ => Err(ConversionError::Unparsable),
    }
}

/// What converting a value to an interval gives.
pub open spec fn interval_from_value(v: Value) -> Result<Interval, ConversionError> {
    match v {
        Value::Interval(Some(x)) => Ok(x),
        Value::Unknown(Some(s)) => interval_parsed(s@),
        _ => Err(ConversionError::Incompatible),
    }
}

impl AsValue for Interval {
    open spec fn converts(value: Value, result: Result<Interval, ConversionError>) -> bool {
        result == interval_from_value(value)
    }

    open spec fn spec_empty() -> Value {
        Value::Interval(None)
    }

    open spec fn valued(self, v: Value) -> bool {
        v == Value::Interval(Some(self))
    }

    /// Reading an interval from text completes unless its arithmetic
    /// overflows or a `-` starts a term without a digit after it.
    open spec fn readable(value: Value) -> bool {
        value matches Value::Unknown(Some(s)) ==> interval_readable(s@)
    }

    fn as_empty_value() -> (r: Value)
        ensures
            r == Value::Interval(None),
    {
        Value::Interval(None)
    }

    fn as_value(self) -> (r: Value)
        ensures
            r == Value::Interval(Some(self)),
    {
        Value::Interval(Some(self))
    }

    fn try_from_value(value: Value) -> (r: Result<Interval, ConversionError>)
        ensures
            r == interval_from_value(value),
    {
        match value {
            Value::Interval(Some(x)) => Ok(x),
            Value::Unknown(Some(s)) => {
                let mut input = s.as_str();
                match extract_interval(&mut input) {
                    Ok(iv) => if input.unicode_len() == 0 {
                        Ok(iv)
                    } else {
                        Err(ConversionError::TrailingInput)
                    },
                    Err(e) => Err(e),
                }
            },
            _ => Err(ConversionError::Incompatible),
        }
    }

    open spec fn extract_readable(s: Seq<char>) -> bool {
        interval_readable(s)
    }

    open spec fn extracts(s: Seq<char>, result: Result<Interval, ConversionError>, rest: Seq<char>) -> bool {
        match interval_scan(s) {
            IntervalScan::Read(iv, after) => result == Ok::<Interval, ConversionError>(iv) && rest == after,
            _ => result == Err::<Interval, ConversionError>(ConversionError::Unparsable) && rest == s,
        }
    }

    fn extract(input: &mut &str) -> (r: Result<Interval, ConversionError>) {
        extract_interval(input)
    }
}

impl From<Interval> for Value {
    fn from(value: Interval) -> (r: Value) {
        Value::Interval(Some(value))
    }
}

impl vstd::std_specs::convert::FromSpecImpl<Interval> for Value {
    open spec fn obeys_from_spec() -> bool {
        true
    }

    open spec fn from_spec(v: Interval) -> Value {
        Value::Interval(Some(v))
    }
}

/// An interval converts back to itself from the value it gives.
pub proof fn law_interval_round_trip(i: Interval, v: Value)
    requires
        i.valued(v),
    ensures
        <Interval as AsValue>::converts(v, Ok(i)),
{
}

} // verus!
