//! Rendering of SQL text: quoting, literals, table and column references.
use vstd::prelude::*;
use vstd::string::StrSliceExecFns;
use vstd::string::StringExecFns;
use crate::context::{Context, Fragment};
use crate::interval::{Interval, tdiv, trem};
use crate::table_ref::{ColumnRef, TableRef};
use crate::text::{int_text, nat_text, push_char, write_int, write_uint};
use crate::value::{DecimalValue, Float32Value, Float64Value, TimestampValue, Value, spec_is_null};

verus! {

/// `s` with every occurrence of `search` replaced by `replace`.
pub open spec fn escaped(s: Seq<char>, search: char, replace: Seq<char>) -> Seq<char>
    decreases s.len(),
{
    if s.len() == 0 {
        Seq::empty()
    } else {
        escaped(s.drop_last(), search, replace) + (if s.last() == search {
            replace
        } else {
            seq![s.last()]
        })
    }
}

/// An identifier between double quotes, inner double quotes doubled.
#[verifier::opaque]
pub open spec fn quoted_identifier(s: Seq<char>) -> Seq<char> {
    seq!['"'] + escaped(s, '"', seq!['"', '"']) + seq!['"']
}

/// The body of a string literal: the delimiter escaped, newlines written as `\n`.
pub open spec fn string_body(s: Seq<char>, delim: char, delim_escape: Seq<char>) -> Seq<char>
    decreases s.len(),
{
    if s.len() == 0 {
        Seq::empty()
    } else {
        string_body(s.drop_last(), delim, delim_escape) + (if s.last() == delim {
            delim_escape
        } else if s.last() == '\n' {
            seq!['\\', 'n']
        } else {
            seq![s.last()]
        })
    }
}

/// A string literal: single quotes doubling inner single quotes, or, inside
/// a string literal fragment, double quotes escaped with a backslash.
pub open spec fn string_literal(fragment: Fragment, s: Seq<char>) -> Seq<char> {
    if fragment != Fragment::StringLiteral {
        seq!['\''] + string_body(s, '\'', seq!['\'', '\'']) + seq!['\'']
    } else {
        seq!['"'] + string_body(s, '"', seq!['\\', '"']) + seq!['"']
    }
}

/// Whether the fragment declares aliases (`FROM`, `JOIN`).
pub open spec fn declares_alias(fragment: Fragment) -> bool {
    fragment == Fragment::SqlSelectFrom || fragment == Fragment::SqlJoin
}

/// A table reference: the quoted schema and name (unless an alias stands in
/// for them outside a declaration), followed by ` alias` when there is one.
pub open spec fn table_ref_sql(fragment: Fragment, t: TableRef) -> Seq<char> {
    (if declares_alias(fragment) || t.alias@.len() == 0 {
        (if t.schema@.len() != 0 {
            quoted_identifier(t.schema@) + seq!['.']
        } else {
            Seq::empty()
        }) + quoted_identifier(t.name@)
    } else {
        Seq::empty()
    }) + (if t.alias@.len() != 0 {
        seq![' '] + t.alias@
    } else {
        Seq::empty()
    })
}

/// A column reference, qualified with its schema and table when the context
/// asks for it and the table is known.
pub open spec fn column_ref_sql(qualify: bool, c: ColumnRef) -> Seq<char> {
    (if qualify && c.table@.len() != 0 {
        (if c.schema@.len() != 0 {
            quoted_identifier(c.schema@) + seq!['.']
        } else {
            Seq::empty()
        }) + quoted_identifier(c.table@) + seq!['.']
    } else {
        Seq::empty()
    }) + quoted_identifier(c.name@)
}

/// Uppercase hexadecimal digit.
pub open spec fn hex_digit(d: int) -> char {
    if d < 10 {
        (48 + d) as char
    } else {
        (55 + d) as char
    }
}

/// Uppercase hexadecimal text of a byte, without leading zeros.
pub open spec fn hex_byte(b: u8) -> Seq<char> {
    if b < 16 {
        seq![hex_digit(b as int)]
    } else {
        seq![hex_digit(b as int / 16), hex_digit(b as int % 16)]
    }
}

/// The escapes `\xHH` of a byte sequence.
pub open spec fn hex_escapes(bytes: Seq<u8>) -> Seq<char>
    decreases bytes.len(),
{
    if bytes.len() == 0 {
        Seq::empty()
    } else {
        hex_escapes(bytes.drop_last()) + seq!['\\', 'x'] + hex_byte(bytes.last())
    }
}

/// `n` copies of the character `0`.
pub open spec fn zeros(n: int) -> Seq<char> {
    Seq::new(if n > 0 { n as nat } else { 0 }, |i: int| '0')
}

/// Decimal text of `i` padded with zeros after the sign to at least `width` characters.
pub open spec fn padded_int(i: int, width: int) -> Seq<char> {
    if i < 0 {
        seq!['-'] + zeros(width - 1 - nat_text((-i) as nat).len()) + nat_text((-i) as nat)
    } else {
        zeros(width - nat_text(i as nat).len()) + nat_text(i as nat)
    }
}

/// The fraction digits written for a nanosecond count: trailing zeros dropped
/// while more than one digit is left, the rest zero-padded to the digits kept.
pub open spec fn subsecond_digits(ns: int, width: int) -> Seq<char>
    decreases width,
{
    if width > 1 && ns % 10 == 0 {
        subsecond_digits(ns / 10, width - 1)
    } else {
        padded_int(ns, width)
    }
}

/// `hh:mm:ss.fraction` between two copies of `quote`.
pub open spec fn clock_text(quote: Seq<char>, h: int, m: int, s: int, ns: int) -> Seq<char> {
    quote + padded_int(h, 2) + seq![':'] + padded_int(m, 2) + seq![':'] + padded_int(s, 2)
        + seq!['.'] + subsecond_digits(ns, 9) + quote
}

/// A calendar date.
#[derive(Clone, Copy, Debug, PartialEq, Eq, Structural)]
pub struct DateValue {
    pub year: i32,
    pub month: u8,
    pub day: u8,
}

/// A time of day.
#[derive(Clone, Copy, Debug, PartialEq, Eq, Structural)]
pub struct TimeValue {
    pub hour: u8,
    pub minute: u8,
    pub second: u8,
    pub nanosecond: u32,
}

/// `yyyy-mm-dd` between two copies of `quote`.
pub open spec fn date_text(quote: Seq<char>, d: DateValue) -> Seq<char> {
    quote + padded_int(d.year as int, 4) + seq!['-'] + padded_int(d.month as int, 2) + seq!['-']
        + padded_int(d.day as int, 2) + quote
}

/// Appends `count` zeros.
fn write_zeros(out: &mut String, count: usize)
    ensures
        final(out)@ == old(out)@ + zeros(count as int),
{
    let mut i: usize = 0;
    while i < count
        invariant
            i <= count,
            out@ == old(out)@ + zeros(i as int),
        decreases count - i,
    {
        push_char(out, '0');
        i = i + 1;
        assert(zeros(i as int) =~= zeros((i - 1) as int).push('0'));
    }
}

/// Appends the decimal text of `value` padded with zeros after the sign to `width` characters.
pub fn write_padded(out: &mut String, value: i128, width: usize)
    ensures
        final(out)@ == old(out)@ + padded_int(value as int, width as int),
{
    if value < 0 {
        push_char(out, '-');
        let digits = if value == i128::MIN {
            170141183460469231731687303715884105728u128
        } else {
            (-value) as u128
        };
        let mut text = String::new();
        write_uint(&mut text, digits);
        let len = text.as_str().unicode_len();
        if width > len && width - len > 1 {
            write_zeros(out, width - 1 - len);
        } else {
            write_zeros(out, 0);
        }
        out.append(text.as_str());
        assert(zeros((width - 1 - len) as int) =~= zeros(width - 1 - nat_text((-value) as nat).len()))
            by {
            if width > len && width - len > 1 {
            } else {
            }
        };
    } else {
        let mut text = String::new();
        write_uint(&mut text, value as u128);
        let len = text.as_str().unicode_len();
        if width > len {
            write_zeros(out, width - len);
        } else {
            write_zeros(out, 0);
        }
        out.append(text.as_str());
    }
}

/// The fallback SQL writer, following PostgreSQL / DuckDB conventions.
pub struct GenericSqlWriter {}

impl GenericSqlWriter {
    /// A new generic writer.
    pub fn new() -> (r: Self) {
        GenericSqlWriter {  }
    }

    /// Whether the fragment being written declares table aliases.
    pub fn alias_declaration(&self, context: &Context) -> (r: bool)
        ensures
            r == declares_alias(context.fragment),
    {
        match context.fragment {
            Fragment::SqlSelectFrom | Fragment::SqlJoin => true,
            _ => false,
        }
    }

    /// Appends `value` with every `search` character replaced by `replace`.
    pub fn write_escaped(
        &self,
        context: &Context,
        out: &mut String,
        value: &str,
        search: char,
        replace: &str,
    )
        ensures
            final(out)@ == old(out)@ + escaped(value@, search, replace@),
    {
        let n = value.unicode_len();
        let mut i: usize = 0;
        while i < n
            invariant
                n == value@.len(),
                i <= n,
                out@ == old(out)@ + escaped(value@.take(i as int), search, replace@),
            decreases n - i,
        {
            let c = value.get_char(i);
            if c == search {
                out.append(replace);
            } else {
                push_char(out, c);
            }
            assert(value@.take(i + 1).drop_last() =~= value@.take(i as int));
            i = i + 1;
        }
        assert(value@.take(n as int) =~= value@);
    }

    /// Appends `value` as a quoted identifier, inner double quotes doubled.
    pub fn write_identifier_quoted(&self, context: &Context, out: &mut String, value: &str)
        ensures
            final(out)@ == old(out)@ + quoted_identifier(value@),
    {
        push_char(out, '"');
        proof {
            reveal_strlit("\"\"");
            assert("\"\""@ =~= seq!['"', '"']);
        }
        self.write_escaped(context, out, value, '"', "\"\"");
        push_char(out, '"');
        proof {
            reveal(quoted_identifier);
        }
    }

    /// Appends a table reference with its optional alias.
    pub fn write_table_ref(&self, context: &Context, out: &mut String, value: &TableRef)
        ensures
            final(out)@ == old(out)@ + table_ref_sql(context.fragment, *value),
    {
        let ghost start = out@;
        if self.alias_declaration(context) || value.alias.as_str().is_empty() {
            if !value.schema.is_empty() {
                self.write_identifier_quoted(context, out, value.schema);
                push_char(out, '.');
            }
            self.write_identifier_quoted(context, out, value.name);
        }
        if !value.alias.as_str().is_empty() {
            push_char(out, ' ');
            out.append(value.alias.as_str());
        }
        assert(out@ =~= start + table_ref_sql(context.fragment, *value));
    }

    /// Appends a column reference, qualified with schema and table when the
    /// context asks for it.
    pub fn write_column_ref(&self, context: &Context, out: &mut String, value: &ColumnRef)
        ensures
            final(out)@ == old(out)@ + column_ref_sql(context.qualify_columns, *value),
    {
        let ghost start = out@;
        if context.qualify_columns && !value.table.is_empty() {
            if !value.schema.is_empty() {
                self.write_identifier_quoted(context, out, value.schema);
                push_char(out, '.');
            }
            self.write_identifier_quoted(context, out, value.table);
            push_char(out, '.');
        }
        self.write_identifier_quoted(context, out, value.name);
        assert(out@ =~= start + column_ref_sql(context.qualify_columns, *value));
    }

    /// Appends `NULL`.
    pub fn write_value_none(&self, context: &Context, out: &mut String)
        ensures
            final(out)@ == old(out)@ + "NULL"@,
    {
        out.append("NULL");
    }

    /// Appends `true` or `false`.
    pub fn write_value_bool(&self, context: &Context, out: &mut String, value: bool)
        ensures
            final(out)@ == old(out)@ + (if value {
                "true"@
            } else {
                "false"@
            }),
    {
        if value {
            out.append("true");
        } else {
            out.append("false");
        }
    }

    /// Appends a string literal with its delimiters escaped.
    pub fn write_value_string(&self, context: &Context, out: &mut String, value: &str)
        ensures
            final(out)@ == old(out)@ + string_literal(context.fragment, value@),
    {
        let ghost start = out@;
        let literal = context.fragment != Fragment::StringLiteral;
        let delim = if literal {
            '\''
        } else {
            '"'
        };
        let escape = if literal {
            "''"
        } else {
            "\\\""
        };
        proof {
            reveal_strlit("''");
            reveal_strlit("\\\"");
            assert("''"@ =~= seq!['\'', '\'']);
            assert("\\\""@ =~= seq!['\\', '"']);
        }
        push_char(out, delim);
        let n = value.unicode_len();
        let mut i: usize = 0;
        while i < n
            invariant
                n == value@.len(),
                i <= n,
                out@ == start.push(delim) + string_body(value@.take(i as int), delim, escape@),
            decreases n - i,
        {
            let c = value.get_char(i);
            if c == delim {
                out.append(escape);
            } else if c == '\n' {
                push_char(out, '\\');
                push_char(out, 'n');
            } else {
                push_char(out, c);
            }
            assert(value@.take(i + 1).drop_last() =~= value@.take(i as int));
            i = i + 1;
        }
        assert(value@.take(n as int) =~= value@);
        push_char(out, delim);
        assert(out@ =~= start + string_literal(context.fragment, value@));
    }

    /// Appends a blob literal: each byte as `\x` and its uppercase hexadecimal
    /// digits, between single quotes.
    pub fn write_value_blob(&self, context: &Context, out: &mut String, value: &[u8])
        ensures
            final(out)@ == old(out)@ + seq!['\''] + hex_escapes(value@) + seq!['\''],
    {
        let ghost start = out@;
        push_char(out, '\'');
        let mut i: usize = 0;
        while i < value.len()
            invariant
                i <= value@.len(),
                out@ == start.push('\'') + hex_escapes(value@.take(i as int)),
            decreases value@.len() - i,
        {
            let b = value[i];
            push_char(out, '\\');
            push_char(out, 'x');
            if b >= 16 {
                push_char(out, hex_char(b / 16));
            }
            push_char(out, hex_char(b % 16));
            assert(value@.take(i + 1).drop_last() =~= value@.take(i as int));
            i = i + 1;
        }
        assert(value@.take(value@.len() as int) =~= value@);
        push_char(out, '\'');
    }

    /// Appends a date as `yyyy-mm-dd`, between single quotes unless it is part of a timestamp.
    pub fn write_value_date(
        &self,
        context: &Context,
        out: &mut String,
        value: &DateValue,
        timestamp: bool,
    )
        ensures
            final(out)@ == old(out)@ + date_text(
                if timestamp {
                    Seq::empty()
                } else {
                    seq!['\'']
                },
                *value,
            ),
    {
        let ghost start = out@;
        if !timestamp {
            push_char(out, '\'');
        }
        write_padded(out, value.year as i128, 4);
        push_char(out, '-');
        write_padded(out, value.month as i128, 2);
        push_char(out, '-');
        write_padded(out, value.day as i128, 2);
        if !timestamp {
            push_char(out, '\'');
        }
        assert(out@ =~= start + date_text(
            if timestamp {
                Seq::empty()
            } else {
                seq!['\'']
            },
            *value,
        ));
    }

    /// Appends a time as `hh:mm:ss.fraction`, between single quotes unless it
    /// is part of a timestamp.
    pub fn write_value_time(
        &self,
        context: &Context,
        out: &mut String,
        value: &TimeValue,
        timestamp: bool,
    )
        ensures
            final(out)@ == old(out)@ + clock_text(
                if timestamp {
                    Seq::empty()
                } else {
                    seq!['\'']
                },
                value.hour as int,
                value.minute as int,
                value.second as int,
                value.nanosecond as int,
            ),
    {
        if timestamp {
            proof {
                reveal_strlit("");
            }
            print_timer(out, "", value.hour as i64, value.minute, value.second, value.nanosecond);
        } else {
            proof {
                reveal_strlit("'");
            }
            print_timer(out, "'", value.hour as i64, value.minute, value.second, value.nanosecond);
        }
    }
}

/// Uppercase hexadecimal digit of `d < 16`.
fn hex_char(d: u8) -> (c: char)
    requires
        d < 16,
    ensures
        c == hex_digit(d as int),
{
    if d < 10 {
        (48 + d) as char
    } else {
        (55 + d) as char
    }
}

/// Appends `{quote}hh:mm:ss.fraction{quote}`: each clock field with at least
/// two digits, the fraction with its trailing zeros dropped (one digit kept).
pub fn print_timer(out: &mut String, quote: &str, h: i64, m: u8, s: u8, ns: u32)
    ensures
        final(out)@ == old(out)@ + clock_text(quote@, h as int, m as int, s as int, ns as int),
{
    let ghost start = out@;
    let mut subsecond = ns;
    let mut width: usize = 9;
    while width > 1 && subsecond % 10 == 0
        invariant
            1 <= width <= 9,
            subsecond_digits(subsecond as int, width as int) == subsecond_digits(ns as int, 9),
        decreases width,
    {
        subsecond = subsecond / 10;
        width = width - 1;
    }
    out.append(quote);
    write_padded(out, h as i128, 2);
    push_char(out, ':');
    write_padded(out, m as i128, 2);
    push_char(out, ':');
    write_padded(out, s as i128, 2);
    push_char(out, '.');
    write_padded(out, subsecond as i128, width);
    out.append(quote);
    assert(out@ =~= start + clock_text(quote@, h as int, m as int, s as int, ns as int));
}


/// ` {v} {unit}`, the unit in the plural (an `S` appended) unless `v` is 1.
pub open spec fn unit_text(v: int, unit: Seq<char>) -> Seq<char> {
    seq![' '] + int_text(v) + seq![' '] + unit + (if v != 1 {
        seq!['S']
    } else {
        Seq::empty()
    })
}

/// Name of the `i`-th clock unit, from days down to nanoseconds.
pub open spec fn clock_unit_name(i: int) -> Seq<char> {
    if i == 0 {
        "DAY"@
    } else if i == 1 {
        "HOUR"@
    } else if i == 2 {
        "MINUTE"@
    } else if i == 3 {
        "SECOND"@
    } else if i == 4 {
        "MICROSECOND"@
    } else {
        "NANOSECOND"@
    }
}

/// Length in nanoseconds of the `i`-th clock unit.
pub open spec fn clock_unit_factor(i: int) -> int {
    if i == 0 {
        86_400_000_000_000
    } else if i == 1 {
        3_600_000_000_000
    } else if i == 2 {
        60_000_000_000
    } else if i == 3 {
        1_000_000_000
    } else if i == 4 {
        1_000
    } else {
        1
    }
}

/// Whether the months are written with years: above four years, or whole years.
pub open spec fn months_in_years(months: int) -> bool {
    months > 48 || trem(months, 12) == 0
}

/// The months written as years (and the months left over), or as months.
pub open spec fn months_text(months: int) -> Seq<char> {
    if months == 0 {
        Seq::empty()
    } else if months_in_years(months) {
        unit_text(tdiv(months, 12), "YEAR"@) + (if trem(months, 12) != 0 {
            unit_text(trem(months, 12), "MONTH"@)
        } else {
            Seq::empty()
        })
    } else {
        unit_text(months, "MONTH"@)
    }
}

/// How many parts `months_text` writes.
pub open spec fn months_count(months: int) -> int {
    if months == 0 {
        0
    } else if months_in_years(months) && trem(months, 12) != 0 {
        2
    } else {
        1
    }
}

/// Whether the `i`-th clock unit is written for the length `nanos`: it
/// divides the length exactly, or leaves a positive remainder below a
/// millionth of the unit; and the count in it is not zero.
pub open spec fn clock_unit_written(nanos: int, i: int) -> bool {
    let f = clock_unit_factor(i);
    let rem = trem(nanos, f);
    (rem == 0 || (rem > 0 && f / rem > 1_000_000)) && tdiv(nanos, f) != 0
}

/// The day-and-clock length written unit by unit from the `i`-th on: each
/// unit that is written takes its count, and the remainder goes on.
pub open spec fn length_text(nanos: int, i: int) -> Seq<char>
    decreases 6 - i,
{
    if i < 0 || i >= 6 {
        Seq::empty()
    } else if clock_unit_written(nanos, i) {
        unit_text(tdiv(nanos, clock_unit_factor(i)), clock_unit_name(i)) + length_text(
            trem(nanos, clock_unit_factor(i)),
            i + 1,
        )
    } else {
        length_text(nanos, i + 1)
    }
}

/// How many parts `length_text` writes.
pub open spec fn length_count(nanos: int, i: int) -> int
    decreases 6 - i,
{
    if i < 0 || i >= 6 {
        0
    } else if clock_unit_written(nanos, i) {
        1 + length_count(trem(nanos, clock_unit_factor(i)), i + 1)
    } else {
        length_count(nanos, i + 1)
    }
}

/// An `INTERVAL` literal: `0 SECONDS` for the empty interval, else the
/// months, then the days and nanoseconds unit by unit; the parts are quoted
/// together when there are two or more.
pub open spec fn interval_sql(iv: Interval) -> Seq<char> {
    if iv.months == 0 && iv.days == 0 && iv.nanos == 0 {
        "INTERVAL"@ + unit_text(0, "SECOND"@)
    } else {
        let body = months_text(iv.months as int) + length_text(iv.total_nanos(), 0);
        if months_count(iv.months as int) + length_count(iv.total_nanos(), 0) >= 2 {
            "INTERVAL"@ + seq![' ', '\''] + body.skip(1) + seq!['\'']
        } else {
            "INTERVAL"@ + body
        }
    }
}

impl GenericSqlWriter {
    /// The clock units used to write intervals, from days down to nanoseconds,
    /// each with its length in nanoseconds.
    pub fn value_interval_units(&self) -> (r: [(&'static str, i128); 6])
        ensures
            forall|i: int|
                0 <= i < 6 ==> (#[trigger] r@[i]).0@ == clock_unit_name(i) && r@[i].1
                    == clock_unit_factor(i),
    {
        [
            ("DAY", Interval::NANOS_IN_DAY),
            ("HOUR", Interval::NANOS_IN_SEC * 3600),
            ("MINUTE", Interval::NANOS_IN_SEC * 60),
            ("SECOND", Interval::NANOS_IN_SEC),
            ("MICROSECOND", 1_000),
            ("NANOSECOND", 1),
        ]
    }

    /// Appends an `INTERVAL` literal: `0 SECONDS` for the empty interval,
    /// else the months as years (and months) or months, then the days and
    /// nanoseconds unit by unit, each unit taken whole or with a remainder
    /// below a millionth of it; quoted when two or more parts are written.
    pub fn write_value_interval(&self, context: &Context, out: &mut String, value: &Interval)
        requires
            i128::MIN <= value.total_nanos() <= i128::MAX,
        ensures
            final(out)@ == old(out)@ + interval_sql(*value),
    {
        let ghost start = out@;
        if value.is_zero() {
            out.append("INTERVAL");
            write_unit(out, 0, "SECOND");
            assert(out@ =~= start + interval_sql(*value));
            return;
        }
        let mut body = String::new();
        let mut units: usize = 0;
        let months = value.months;
        if months != 0 {
            if months > 48 || months % 12 == 0 {
                write_unit(&mut body, (months / 12) as i128, "YEAR");
                units = 1;
                let r = months % 12;
                if r != 0 {
                    write_unit(&mut body, r as i128, "MONTH");
                    units = 2;
                }
            } else {
                write_unit(&mut body, months as i128, "MONTH");
                units = 1;
            }
        }
        let ghost months_part = body@;
        assert(months_part == months_text(months as int));
        assert(units == months_count(months as int));
        assert(units > 0 ==> body@.len() > 0);
        let total = value.nanos + value.days as i128 * Interval::NANOS_IN_DAY;
        let mut nanos = total;
        let table = self.value_interval_units();
        let mut i: usize = 0;
        while i < 6
            invariant
                0 <= i <= 6,
                total as int == value.total_nanos(),
                units <= 2 + i,
                units > 0 ==> body@.len() > 0,
                forall|j: int|
                    0 <= j < 6 ==> (#[trigger] table@[j]).0@ == clock_unit_name(j) && table@[j].1
                        == clock_unit_factor(j),
                body@ + length_text(nanos as int, i as int) == months_part + length_text(
                    total as int,
                    0,
                ),
                units + length_count(nanos as int, i as int) == months_count(months as int)
                    + length_count(total as int, 0),
            decreases 6 - i,
        {
            let (name, factor) = table[i];
            assert(table@[i as int].0@ == clock_unit_name(i as int));
            assert(factor == clock_unit_factor(i as int));
            assert(factor > 0);
            let (count, rem) = div_rem(nanos, factor);
            if (rem == 0 || (rem > 0 && factor / rem > 1_000_000)) && count != 0 {
                assert(clock_unit_written(nanos as int, i as int));
                let ghost before = body@;
                write_unit(&mut body, count, name);
                units = units + 1;
                assert(body@ + length_text(rem as int, i + 1) =~= before + length_text(
                    nanos as int,
                    i as int,
                ));
                nanos = rem;
            } else {
                assert(!clock_unit_written(nanos as int, i as int));
            }
            i = i + 1;
        }
        assert(length_text(nanos as int, 6) == Seq::<char>::empty());
        assert(body@ =~= months_part + length_text(total as int, 0));
        out.append("INTERVAL");
        if units >= 2 {
            proof {
                reveal_strlit(" '");
            }
            out.append(" '");
            let len = body.as_str().unicode_len();
            out.append(body.as_str().substring_char(1, len));
            push_char(out, '\'');
        } else {
            out.append(body.as_str());
        }
        assert(out@ =~= start + interval_sql(*value));
    }
}

/// Quotient and remainder of a division by a positive number, rounding toward zero.
fn div_rem(a: i128, b: i128) -> (r: (i128, i128))
    requires
        b > 0,
    ensures
        r.0 == tdiv(a as int, b as int),
        r.1 == trem(a as int, b as int),
{
    let q = a.checked_div(b).unwrap();
    let r = a.checked_rem(b).unwrap();
    proof {
        crate::interval::lemma_tdiv_trem(a as int, b as int);
        let bb = b as int;
        if a < 0 {
            let na: int = -(a as int);
            assert(na % bb == na - bb * (na / bb)) by (nonlinear_arith)
                requires
                    bb > 0,
            ;
            assert(bb * (-(na / bb)) == -(bb * (na / bb))) by (nonlinear_arith);
            assert(tdiv(a as int, bb) == -(na / bb));
            assert(trem(a as int, bb) == -(na % bb));
            assert(r == -(na % bb));
        } else {
            let aa = a as int;
            assert(aa % bb == aa - bb * (aa / bb)) by (nonlinear_arith)
                requires
                    bb > 0,
            ;
        }
    }
    (q, r)
}

/// Appends ` {value} {unit}`, with an `S` after the unit when `value > 1`.
fn write_unit(out: &mut String, value: i128, unit: &str)
    ensures
        final(out)@ == old(out)@ + unit_text(value as int, unit@),
{
    let ghost start = out@;
    push_char(out, ' ');
    write_int(out, value);
    push_char(out, ' ');
    out.append(unit);
    if value != 1 {
        push_char(out, 'S');
    }
    assert(out@ =~= start + unit_text(value as int, unit@));
}


/// Decimal text of `n` (`u64` or smaller unsigned) used in type names.
pub open spec fn type_text(v: Value) -> Seq<char>
    decreases v,
{
    match v {
        Value::Boolean(..) => "BOOLEAN"@,
        Value::Int8(..) => "TINYINT"@,
        Value::Int16(..) => "SMALLINT"@,
        Value::Int32(..) => "INTEGER"@,
        Value::Int64(..) => "BIGINT"@,
        Value::Int128(..) => "HUGEINT"@,
        Value::UInt8(..) => "UTINYINT"@,
        Value::UInt16(..) => "USMALLINT"@,
        Value::UInt32(..) => "UINTEGER"@,
        Value::UInt64(..) => "UBIGINT"@,
        Value::UInt128(..) => "UHUGEINT"@,
        Value::Float32(..) => "FLOAT"@,
        Value::Float64(..) => "DOUBLE"@,
        Value::Decimal(_, precision, scale) => "DECIMAL"@ + (if precision != 0 || scale != 0 {
            seq!['('] + int_text(precision as int) + seq![','] + int_text(scale as int) + seq![')']
        } else {
            Seq::empty()
        }),
        Value::Char(..) => "CHAR(1)"@,
        Value::Varchar(..) => "VARCHAR"@,
        Value::Blob(..) => "BLOB"@,
        Value::Date(..) => "DATE"@,
        Value::Time(..) => "TIME"@,
        Value::Timestamp(..) => "TIMESTAMP"@,
        Value::TimestampWithTimezone(..) => "TIMESTAMPTZ"@,
        Value::Interval(..) => "INTERVAL"@,
        Value::Uuid(..) => "UUID"@,
        Value::Array(_, inner, size) => type_text(*inner) + seq!['['] + int_text(size as int)
            + seq![']'],
        Value::List(_, inner) => type_text(*inner) + seq!['[', ']'],
        Value::Dict(_, key, value) => "MAP("@ + type_text(*key) + seq![','] + type_text(*value)
            + seq![')'],
        _ => Seq::empty(),
    }
}

/// Lowercase hexadecimal digit.
pub open spec fn lower_hex_digit(d: int) -> char {
    if d < 10 {
        (48 + d) as char
    } else {
        (87 + d) as char
    }
}

/// The `i`-th of the 32 hexadecimal digits of a 128-bit number, most significant first.
pub open spec fn nibble(v: int, i: int) -> int {
    (v / pow16(31 - i)) % 16
}

/// `16^n`.
pub open spec fn pow16(n: int) -> int
    decreases n,
{
    if n <= 0 {
        1
    } else {
        16 * pow16(n - 1)
    }
}

/// Hyphenated lowercase text of a UUID: `8-4-4-4-12` hexadecimal digits.
pub open spec fn uuid_text(v: int) -> Seq<char> {
    Seq::new(
        36,
        |j: int|
            if j == 8 || j == 13 || j == 18 || j == 23 {
                '-'
            } else {
                lower_hex_digit(
                    nibble(
                        v,
                        j - (if j > 23 {
                            4int
                        } else if j > 18 {
                            3int
                        } else if j > 13 {
                            2int
                        } else if j > 8 {
                            1int
                        } else {
                            0int
                        }),
                    ),
                )
            },
    )
}

/// `uuid::Uuid::from_u128(v).to_string()`: the hyphenated lowercase text of the UUID.
#[verifier::external_body]
fn uuid_to_text(v: u128) -> (r: String)
    ensures
        r@ == uuid_text(v as int),
{
    uuid::Uuid::from_u128(v).to_string()
}

/// Text of a decimal `m * 10^-s` as `rust_decimal` displays it: a `-` sign
/// for negative numbers, the integer part (`0` when empty), then when `s > 0`
/// a dot and exactly `s` fraction digits.
pub open spec fn decimal_text(m: int, s: int) -> Seq<char> {
    let digits = if m == 0 {
        Seq::empty()
    } else if m < 0 {
        nat_text((-m) as nat)
    } else {
        nat_text(m as nat)
    };
    let padded = zeros(s - digits.len()) + digits;
    let whole = padded.take(padded.len() - s);
    let frac = padded.skip(padded.len() - s);
    (if m < 0 {
        seq!['-']
    } else {
        Seq::empty()
    }) + (if whole.len() == 0 {
        seq!['0']
    } else {
        whole
    }) + (if s > 0 {
        seq!['.'] + frac
    } else {
        Seq::empty()
    })
}

/// `rust_decimal::Decimal`'s `Display`: see [`decimal_text`].
#[verifier::external_body]
fn decimal_to_text(d: &DecimalValue) -> (r: String)
    ensures
        r@ == decimal_text(d.spec_mantissa() as int, d.spec_scale() as int),
{
    rust_decimal::Decimal::from_i128_with_scale(d.mantissa(), d.scale()).to_string()
}

/// Whether the bits encode an infinite 32-bit float.
pub open spec fn is_inf32(bits: u32) -> bool {
    bits & 0x7fff_ffff == 0x7f80_0000
}

/// Whether the bits encode an infinite 64-bit float.
pub open spec fn is_inf64(bits: u64) -> bool {
    bits & 0x7fff_ffff_ffff_ffff == 0x7ff0_0000_0000_0000
}

/// The literal of a non-finite float: a cast of its text to `DOUBLE`.
pub open spec fn non_finite_sql(text: Seq<char>) -> Seq<char> {
    "CAST('"@ + text + "' AS DOUBLE)"@
}

/// Literal of a 32-bit float: infinities and NaN as casts, others as their text.
pub open spec fn float32_sql(f: Float32Value) -> Seq<char> {
    if is_inf32(f.bits) {
        non_finite_sql(
            if f.bits & 0x8000_0000 != 0 {
                "-inf"@
            } else {
                "inf"@
            },
        )
    } else if crate::value::is_nan32(f.bits) {
        non_finite_sql("NaN"@)
    } else {
        f.text@
    }
}

/// Literal of a 64-bit float: infinities and NaN as casts, others as their text.
pub open spec fn float64_sql(f: Float64Value) -> Seq<char> {
    if is_inf64(f.bits) {
        non_finite_sql(
            if f.bits & 0x8000_0000_0000_0000 != 0 {
                "-inf"@
            } else {
                "inf"@
            },
        )
    } else if crate::value::is_nan64(f.bits) {
        non_finite_sql("NaN"@)
    } else {
        f.text@
    }
}

/// `yyyy-mm-ddThh:mm:ss.fraction` between single quotes.
pub open spec fn timestamp_text(ts: TimestampValue) -> Seq<char> {
    seq!['\''] + date_text(Seq::empty(), ts.date) + seq!['T'] + clock_text(
        Seq::empty(),
        ts.time.hour as int,
        ts.time.minute as int,
        ts.time.second as int,
        ts.time.nanosecond as int,
    ) + seq!['\'']
}

/// Whether every interval inside the value has a day-and-clock length that
/// fits in an `i128` (writing it computes that length).
pub open spec fn value_writable(v: Value) -> bool
    decreases v, 1int, 0int,
{
    match v {
        Value::Interval(Some(i)) => i128::MIN <= i.total_nanos() <= i128::MAX,
        Value::Array(Some(x), ..) => values_writable(x@, x@.len() as int),
        Value::List(Some(x), ..) => values_writable(x@, x@.len() as int),
        Value::Dict(Some(x), ..) => entries_writable(x@, x@.len() as int),
        Value::Struct(Some(x)) => fields_writable(x@, x@.len() as int),
        _ => true,
    }
}

pub open spec fn values_writable(s: Seq<Value>, n: int) -> bool
    decreases s, 0int, n,
{
    if n <= 0 || n > s.len() {
        true
    } else {
        values_writable(s, n - 1) && value_writable(s[n - 1])
    }
}

pub open spec fn entries_writable(s: Seq<(Value, Value)>, n: int) -> bool
    decreases s, 0int, n,
{
    if n <= 0 || n > s.len() {
        true
    } else {
        entries_writable(s, n - 1) && value_writable(s[n - 1].0) && value_writable(s[n - 1].1)
    }
}

pub open spec fn fields_writable(s: Seq<(String, Value)>, n: int) -> bool
    decreases s, 0int, n,
{
    if n <= 0 || n > s.len() {
        true
    } else {
        fields_writable(s, n - 1) && value_writable(s[n - 1].1)
    }
}

/// The text of a value in a SQL statement.
pub open spec fn value_sql(fragment: Fragment, v: Value) -> Seq<char>
    decreases v, 1int, 0int,
{
    if spec_is_null(v) {
        "NULL"@
    } else {
        match v {
            Value::Boolean(Some(b)) => if b {
                "true"@
            } else {
                "false"@
            },
            Value::Int8(Some(x)) => int_text(x as int),
            Value::Int16(Some(x)) => int_text(x as int),
            Value::Int32(Some(x)) => int_text(x as int),
            Value::Int64(Some(x)) => int_text(x as int),
            Value::Int128(Some(x)) => int_text(x as int),
            Value::UInt8(Some(x)) => int_text(x as int),
            Value::UInt16(Some(x)) => int_text(x as int),
            Value::UInt32(Some(x)) => int_text(x as int),
            Value::UInt64(Some(x)) => int_text(x as int),
            Value::UInt128(Some(x)) => int_text(x as int),
            Value::Float32(Some(f)) => float32_sql(f),
            Value::Float64(Some(f)) => float64_sql(f),
            Value::Decimal(Some(d), ..) => decimal_text(
                d.spec_mantissa() as int,
                d.spec_scale() as int,
            ),
            Value::Char(Some(c)) => string_literal(fragment, seq![c]),
            Value::Varchar(Some(s)) => string_literal(fragment, s@),
            Value::Blob(Some(b)) => seq!['\''] + hex_escapes(b@) + seq!['\''],
            Value::Date(Some(d)) => date_text(seq!['\''], d),
            Value::Time(Some(t)) => clock_text(
                seq!['\''],
                t.hour as int,
                t.minute as int,
                t.second as int,
                t.nanosecond as int,
            ),
            Value::Timestamp(Some(ts)) => timestamp_text(ts),
            Value::TimestampWithTimezone(Some(ts)) => timestamp_text(ts),
            Value::Interval(Some(i)) => interval_sql(i),
            Value::Uuid(Some(u)) => seq!['\''] + uuid_text(u as int) + seq!['\''],
            Value::Array(Some(x), ..) => seq!['['] + values_sql(fragment, x@, x@.len() as int)
                + seq![']'],
            Value::List(Some(x), ..) => seq!['['] + values_sql(fragment, x@, x@.len() as int)
                + seq![']'],
            Value::Dict(Some(x), ..) => seq!['{'] + entries_sql(fragment, x@, x@.len() as int)
                + seq!['}'],
            Value::Struct(Some(x)) => seq!['{'] + fields_sql(fragment, x@, x@.len() as int)
                + seq!['}'],
            _ => Seq::empty(),
        }
    }
}

/// The first `n` values, separated by commas: a comma stands before a value
/// when the value before it wrote some text.
pub open spec fn values_sql(fragment: Fragment, s: Seq<Value>, n: int) -> Seq<char>
    decreases s, 0int, n,
{
    if n <= 0 || n > s.len() {
        Seq::empty()
    } else {
        values_sql(fragment, s, n - 1) + (if n >= 2 && value_sql(fragment, s[n - 2]).len() > 0 {
            seq![',']
        } else {
            Seq::empty()
        }) + value_sql(fragment, s[n - 1])
    }
}

/// The first `n` map entries as `key:value`, separated by commas.
pub open spec fn entries_sql(fragment: Fragment, s: Seq<(Value, Value)>, n: int) -> Seq<char>
    decreases s, 0int, n,
{
    if n <= 0 || n > s.len() {
        Seq::empty()
    } else {
        entries_sql(fragment, s, n - 1) + (if n >= 2 {
            seq![',']
        } else {
            Seq::empty()
        }) + value_sql(fragment, s[n - 1].0) + seq![':'] + value_sql(fragment, s[n - 1].1)
    }
}

/// The first `n` struct fields as `'name':value`, separated by commas.
pub open spec fn fields_sql(fragment: Fragment, s: Seq<(String, Value)>, n: int) -> Seq<char>
    decreases s, 0int, n,
{
    if n <= 0 || n > s.len() {
        Seq::empty()
    } else {
        fields_sql(fragment, s, n - 1) + (if n >= 2 {
            seq![',']
        } else {
            Seq::empty()
        }) + string_literal(fragment, s[n - 1].0@) + seq![':'] + value_sql(fragment, s[n - 1].1)
    }
}


impl GenericSqlWriter {
    /// Appends the SQL type of a value prototype; prototypes without a SQL
    /// type (`Null`, `Struct`, `Unknown`) write nothing.
    pub fn write_column_type(&self, context: &Context, out: &mut String, value: &Value)
        ensures
            final(out)@ == old(out)@ + type_text(*value),
        decreases value,
    {
        let ghost start = out@;
        match value {
            Value::Boolean(..) => out.append("BOOLEAN"),
            Value::Int8(..) => out.append("TINYINT"),
            Value::Int16(..) => out.append("SMALLINT"),
            Value::Int32(..) => out.append("INTEGER"),
            Value::Int64(..) => out.append("BIGINT"),
            Value::Int128(..) => out.append("HUGEINT"),
            Value::UInt8(..) => out.append("UTINYINT"),
            Value::UInt16(..) => out.append("USMALLINT"),
            Value::UInt32(..) => out.append("UINTEGER"),
            Value::UInt64(..) => out.append("UBIGINT"),
            Value::UInt128(..) => out.append("UHUGEINT"),
            Value::Float32(..) => out.append("FLOAT"),
            Value::Float64(..) => out.append("DOUBLE"),
            Value::Decimal(_, precision, scale) => {
                out.append("DECIMAL");
                if *precision != 0 || *scale != 0 {
                    push_char(out, '(');
                    write_uint(out, *precision as u128);
                    push_char(out, ',');
                    write_uint(out, *scale as u128);
                    push_char(out, ')');
                }
            },
            Value::Char(..) => out.append("CHAR(1)"),
            Value::Varchar(..) => out.append("VARCHAR"),
            Value::Blob(..) => out.append("BLOB"),
            Value::Date(..) => out.append("DATE"),
            Value::Time(..) => out.append("TIME"),
            Value::Timestamp(..) => out.append("TIMESTAMP"),
            Value::TimestampWithTimezone(..) => out.append("TIMESTAMPTZ"),
            Value::Interval(..) => out.append("INTERVAL"),
            Value::Uuid(..) => out.append("UUID"),
            Value::Array(_, inner, size) => {
                self.write_column_type(context, out, inner);
                push_char(out, '[');
                write_uint(out, *size as u128);
                push_char(out, ']');
            },
            Value::List(_, inner) => {
                self.write_column_type(context, out, inner);
                push_char(out, '[');
                push_char(out, ']');
            },
            Value::Dict(_, key, value) => {
                out.append("MAP(");
                self.write_column_type(context, out, key);
                push_char(out, ',');
                self.write_column_type(context, out, value);
                push_char(out, ')');
            },
            _ => {},
        }
        assert(out@ =~= start + type_text(*value));
    }

    /// Appends a 32-bit float literal.
    fn write_float32(&self, context: &Context, out: &mut String, value: &Float32Value)
        ensures
            final(out)@ == old(out)@ + float32_sql(*value),
    {
        let bits = value.bits;
        if bits & 0x7fff_ffff == 0x7f80_0000 {
            self.write_value_infinity(context, out, bits & 0x8000_0000 != 0);
        } else if bits & 0x7f80_0000 == 0x7f80_0000 && bits & 0x007f_ffff != 0 {
            self.write_value_nan(context, out);
        } else {
            out.append(value.text.as_str());
        }
    }

    /// Appends a 64-bit float literal.
    pub(crate) fn write_float64(&self, context: &Context, out: &mut String, value: &Float64Value)
        ensures
            final(out)@ == old(out)@ + float64_sql(*value),
    {
        let bits = value.bits;
        if bits & 0x7fff_ffff_ffff_ffff == 0x7ff0_0000_0000_0000 {
            self.write_value_infinity(context, out, bits & 0x8000_0000_0000_0000 != 0);
        } else if bits & 0x7ff0_0000_0000_0000 == 0x7ff0_0000_0000_0000 && bits
            & 0x000f_ffff_ffff_ffff != 0 {
            self.write_value_nan(context, out);
        } else {
            out.append(value.text.as_str());
        }
    }

    /// Appends an infinite float as a cast of `'inf'` or `'-inf'` to `DOUBLE`.
    pub fn write_value_infinity(&self, context: &Context, out: &mut String, negative: bool)
        ensures
            final(out)@ == old(out)@ + non_finite_sql(
                if negative {
                    "-inf"@
                } else {
                    "inf"@
                },
            ),
    {
        out.append("CAST('");
        if negative {
            out.append("-inf");
        } else {
            out.append("inf");
        }
        out.append("' AS DOUBLE)");
    }

    /// Appends NaN as a cast of `'NaN'` to `DOUBLE`.
    pub fn write_value_nan(&self, context: &Context, out: &mut String)
        ensures
            final(out)@ == old(out)@ + non_finite_sql("NaN"@),
    {
        out.append("CAST('");
        out.append("NaN");
        out.append("' AS DOUBLE)");
    }

    /// Appends a timestamp literal `'yyyy-mm-ddThh:mm:ss.fraction'`.
    pub fn write_value_timestamp(&self, context: &Context, out: &mut String, value: &TimestampValue)
        ensures
            final(out)@ == old(out)@ + timestamp_text(*value),
    {
        let ghost start = out@;
        push_char(out, '\'');
        self.write_value_date(context, out, &value.date, true);
        push_char(out, 'T');
        self.write_value_time(context, out, &value.time, true);
        push_char(out, '\'');
        assert(out@ =~= start + timestamp_text(*value));
    }

    /// Appends a timestamp with time zone, given as its UTC date and time, as
    /// the timestamp literal of that UTC date and time.
    pub fn write_value_timestamptz(&self, context: &Context, out: &mut String, value: &TimestampValue)
        ensures
            final(out)@ == old(out)@ + timestamp_text(*value),
    {
        self.write_value_timestamp(context, out, value);
    }

    /// Appends a value literal: `NULL` for null values, then by type (a
    /// `Char` as a one-character string literal); a value of unknown type
    /// writes nothing.
    pub fn write_value(&self, context: &Context, out: &mut String, value: &Value)
        requires
            value_writable(*value),
        ensures
            final(out)@ == old(out)@ + value_sql(context.fragment, *value),
        decreases value, 1int, 0int,
    {
        let ghost start = out@;
        if value.is_null() {
            self.write_value_none(context, out);
            return ;
        }
        match value {
            Value::Boolean(Some(v)) => self.write_value_bool(context, out, *v),
            Value::Int8(Some(v)) => write_int(out, *v as i128),
            Value::Int16(Some(v)) => write_int(out, *v as i128),
            Value::Int32(Some(v)) => write_int(out, *v as i128),
            Value::Int64(Some(v)) => write_int(out, *v as i128),
            Value::Int128(Some(v)) => write_int(out, *v),
            Value::UInt8(Some(v)) => write_uint(out, *v as u128),
            Value::UInt16(Some(v)) => write_uint(out, *v as u128),
            Value::UInt32(Some(v)) => write_uint(out, *v as u128),
            Value::UInt64(Some(v)) => write_uint(out, *v as u128),
            Value::UInt128(Some(v)) => write_uint(out, *v),
            Value::Float32(Some(v)) => self.write_float32(context, out, v),
            Value::Float64(Some(v)) => self.write_float64(context, out, v),
            Value::Decimal(Some(v), ..) => {
                let text = decimal_to_text(v);
                out.append(text.as_str());
            },
            Value::Char(Some(v)) => {
                let mut text = String::new();
                push_char(&mut text, *v);
                assert(text@ =~= seq![*v]);
                self.write_value_string(context, out, text.as_str());
            },
            Value::Varchar(Some(v)) => self.write_value_string(context, out, v.as_str()),
            Value::Blob(Some(v)) => self.write_value_blob(context, out, v.as_slice()),
            Value::Date(Some(v)) => self.write_value_date(context, out, v, false),
            Value::Time(Some(v)) => self.write_value_time(context, out, v, false),
            Value::Timestamp(Some(v)) => self.write_value_timestamp(context, out, v),
            Value::TimestampWithTimezone(Some(v)) => self.write_value_timestamptz(context, out, v),
            Value::Interval(Some(v)) => self.write_value_interval(context, out, v),
            Value::Uuid(Some(v)) => {
                push_char(out, '\'');
                let text = uuid_to_text(*v);
                out.append(text.as_str());
                push_char(out, '\'');
            },
            Value::Array(Some(v), ..) => {
                proof {
                    assert forall|i: int| 0 <= i < v.len() implies decreases_to!(*value => #[trigger] v@[i]) by {
                        assert(decreases_to!(*v => v@));
                        assert(decreases_to!(v@ => v@[i]));
                    }
                }
                self.write_value_list(context, out, v, Ghost(*value));
            },
            Value::List(Some(v), ..) => {
                proof {
                    assert forall|i: int| 0 <= i < v.len() implies decreases_to!(*value => #[trigger] v@[i]) by {
                        assert(decreases_to!(*v => v@));
                        assert(decreases_to!(v@ => v@[i]));
                    }
                }
                self.write_value_list(context, out, v, Ghost(*value));
            },
            Value::Dict(Some(v), ..) => {
                proof {
                    assert forall|i: int| 0 <= i < v.len() implies decreases_to!(*value => #[trigger] v@[i]) by {
                        assert(decreases_to!(*v => v@));
                        assert(decreases_to!(v@ => v@[i]));
                    }
                }
                self.write_value_map(context, out, v, Ghost(*value));
            },
            Value::Struct(Some(v)) => {
                proof {
                    assert forall|i: int| 0 <= i < v.len() implies decreases_to!(*value => #[trigger] v@[i]) by {
                        assert(decreases_to!(*v => v@));
                        assert(decreases_to!(v@ => v@[i]));
                    }
                }
                self.write_value_struct(context, out, v, Ghost(*value));
            },
            _ => {},
        }
        assert(out@ =~= start + value_sql(context.fragment, *value));
    }

    /// Appends `[v1,v2,...]`; a comma stands before a value when the value
    /// before it wrote some text.
    pub fn write_value_list(
        &self,
        context: &Context,
        out: &mut String,
        value: &Vec<Value>,
        Ghost(bound): Ghost<Value>,
    )
        requires
            forall|i: int| 0 <= i < value.len() ==> decreases_to!(bound => #[trigger] value@[i]),
            values_writable(value@, value@.len() as int),
        ensures
            final(out)@ == old(out)@ + seq!['['] + values_sql(
                context.fragment,
                value@,
                value@.len() as int,
            ) + seq![']'],
        decreases bound, 0int, 0int,
    {
        let ghost start = out@;
        push_char(out, '[');
        let mut previous_wrote = false;
        let mut i: usize = 0;
        while i < value.len()
            invariant
                i <= value.len(),
                forall|j: int| 0 <= j < value.len() ==> decreases_to!(bound => #[trigger] value@[j]),
                values_writable(value@, value@.len() as int),
                out@ == start.push('[') + values_sql(context.fragment, value@, i as int),
                i > 0 ==> previous_wrote == (value_sql(context.fragment, value@[i - 1]).len() > 0),
                i == 0 ==> !previous_wrote,
            decreases value.len() - i,
        {
            proof {
                lemma_values_writable(value@, value@.len() as int, i as int);
            }
            assert(decreases_to!(bound => value@[i as int]));
            let mut piece = String::new();
            self.write_value(context, &mut piece, &value[i]);
            let ghost before = out@;
            if previous_wrote {
                push_char(out, ',');
            }
            previous_wrote = !piece.as_str().is_empty();
            out.append(piece.as_str());
            assert(values_sql(context.fragment, value@, i + 1) == values_sql(
                context.fragment,
                value@,
                i as int,
            ) + (if i + 1 >= 2 && value_sql(context.fragment, value@[i - 1]).len() > 0 {
                seq![',']
            } else {
                Seq::empty()
            }) + value_sql(context.fragment, value@[i as int]));
            assert(out@ =~= start.push('[') + values_sql(context.fragment, value@, i + 1));
            i = i + 1;
        }
        push_char(out, ']');
    }

    /// Appends `{k1:v1,k2:v2,...}`.
    pub fn write_value_map(
        &self,
        context: &Context,
        out: &mut String,
        value: &Vec<(Value, Value)>,
        Ghost(bound): Ghost<Value>,
    )
        requires
            forall|i: int| 0 <= i < value.len() ==> decreases_to!(bound => #[trigger] value@[i]),
            entries_writable(value@, value@.len() as int),
        ensures
            final(out)@ == old(out)@ + seq!['{'] + entries_sql(
                context.fragment,
                value@,
                value@.len() as int,
            ) + seq!['}'],
        decreases bound, 0int, 0int,
    {
        let ghost start = out@;
        push_char(out, '{');
        let mut i: usize = 0;
        while i < value.len()
            invariant
                i <= value.len(),
                forall|j: int| 0 <= j < value.len() ==> decreases_to!(bound => #[trigger] value@[j]),
                entries_writable(value@, value@.len() as int),
                out@ == start.push('{') + entries_sql(context.fragment, value@, i as int),
            decreases value.len() - i,
        {
            proof {
                lemma_entries_writable(value@, value@.len() as int, i as int);
            }
            assert(decreases_to!(bound => value@[i as int]));
            assert(decreases_to!(value@[i as int] => value@[i as int].0));
            assert(decreases_to!(value@[i as int] => value@[i as int].1));
            if i > 0 {
                push_char(out, ',');
            }
            self.write_value(context, out, &value[i].0);
            push_char(out, ':');
            self.write_value(context, out, &value[i].1);
            i = i + 1;
        }
        push_char(out, '}');
    }

    /// Appends `{'name':value,...}`.
    pub fn write_value_struct(
        &self,
        context: &Context,
        out: &mut String,
        value: &Vec<(String, Value)>,
        Ghost(bound): Ghost<Value>,
    )
        requires
            forall|i: int| 0 <= i < value.len() ==> decreases_to!(bound => #[trigger] value@[i]),
            fields_writable(value@, value@.len() as int),
        ensures
            final(out)@ == old(out)@ + seq!['{'] + fields_sql(
                context.fragment,
                value@,
                value@.len() as int,
            ) + seq!['}'],
        decreases bound, 0int, 0int,
    {
        let ghost start = out@;
        push_char(out, '{');
        let mut i: usize = 0;
        while i < value.len()
            invariant
                i <= value.len(),
                forall|j: int| 0 <= j < value.len() ==> decreases_to!(bound => #[trigger] value@[j]),
                fields_writable(value@, value@.len() as int),
                out@ == start.push('{') + fields_sql(context.fragment, value@, i as int),
            decreases value.len() - i,
        {
            proof {
                lemma_fields_writable(value@, value@.len() as int, i as int);
            }
            assert(decreases_to!(bound => value@[i as int]));
            assert(decreases_to!(value@[i as int] => value@[i as int].1));
            if i > 0 {
                push_char(out, ',');
            }
            self.write_value_string(context, out, value[i].0.as_str());
            push_char(out, ':');
            self.write_value(context, out, &value[i].1);
            i = i + 1;
        }
        push_char(out, '}');
    }
}

proof fn lemma_values_writable(s: Seq<Value>, n: int, i: int)
    requires
        values_writable(s, n),
        0 <= i < n <= s.len(),
    ensures
        value_writable(s[i]),
    decreases n,
{
    if i < n - 1 {
        lemma_values_writable(s, n - 1, i);
    }
}

proof fn lemma_entries_writable(s: Seq<(Value, Value)>, n: int, i: int)
    requires
        entries_writable(s, n),
        0 <= i < n <= s.len(),
    ensures
        value_writable(s[i].0),
        value_writable(s[i].1),
    decreases n,
{
    if i < n - 1 {
        lemma_entries_writable(s, n - 1, i);
    }
}

proof fn lemma_fields_writable(s: Seq<(String, Value)>, n: int, i: int)
    requires
        fields_writable(s, n),
        0 <= i < n <= s.len(),
    ensures
        value_writable(s[i].1),
    decreases n,
{
    if i < n - 1 {
        lemma_fields_writable(s, n - 1, i);
    }
}

} // verus!
