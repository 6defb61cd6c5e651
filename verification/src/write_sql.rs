//! Writing the fragments of the first statement builder as SQL text.
use vstd::prelude::*;
use vstd::string::StringExecFns;
use crate::metadata::{ColumnDef, ColumnRef, DataType};
use crate::statement::{Backend, SelectFragment, WhereFragment};
use crate::text::push_char;

verus! {

/// Whether the character may start an identifier: an ASCII letter or `_`.
pub open spec fn identifier_start(c: char) -> bool {
    ('a' <= c <= 'z') || ('A' <= c <= 'Z') || c == '_'
}

/// Whether the character may continue an identifier: also an ASCII digit.
pub open spec fn identifier_part(c: char) -> bool {
    identifier_start(c) || ('0' <= c <= '9')
}

/// Whether the text is a plain identifier: `^[a-zA-Z_][a-zA-Z0-9_]*$`.
pub open spec fn is_plain_identifier(s: Seq<char>) -> bool {
    s.len() > 0 && identifier_start(s[0]) && forall|i: int| 1 <= i < s.len() ==> #[trigger] identifier_part(s[i])
}

/// `regex::Regex::new` on the pattern, then `Regex::is_match` on the text.
/// Stated for the one pattern the library uses, `^[a-zA-Z_][a-zA-Z0-9_]*$`
/// (a valid pattern, so building it succeeds): whether the whole text is an
/// ASCII letter or `_` followed by ASCII letters, digits and `_`.
#[verifier::external_body]
fn regex_matches(pattern: &str, name: &str) -> (r: bool)
    requires
        pattern@ == "^[a-zA-Z_][a-zA-Z0-9_]*$"@,
    ensures
        r == is_plain_identifier(name@),
{
    regex::Regex::new(pattern).unwrap().is_match(name)
}

/// Whether the name can be written without quotes: it matches
/// `^[a-zA-Z_][a-zA-Z0-9_]*$`.
pub fn is_identifier(name: &str) -> (r: bool)
    ensures
        r == is_plain_identifier(name@),
{
    regex_matches("^[a-zA-Z_][a-zA-Z0-9_]*$", name)
}

/// A column name: as it is when it is a plain identifier, else between
/// double quotes.
pub open spec fn column_name_sql(name: Seq<char>) -> Seq<char> {
    if is_plain_identifier(name) {
        name
    } else {
        seq!['"'] + name + seq!['"']
    }
}

/// The columns' names joined by commas.
pub open spec fn column_names_sql(columns: Seq<ColumnRef>) -> Seq<char>
    decreases columns.len(),
{
    if columns.len() == 0 {
        Seq::empty()
    } else {
        column_names_sql(columns.drop_last()) + (if columns.len() >= 2 {
            seq![',']
        } else {
            Seq::empty()
        }) + column_name_sql(columns.last().name@)
    }
}

/// The columns' definitions (each its name and a space) joined by commas.
pub open spec fn column_defs_sql(columns: Seq<ColumnDef>) -> Seq<char>
    decreases columns.len(),
{
    if columns.len() == 0 {
        Seq::empty()
    } else {
        column_defs_sql(columns.drop_last()) + (if columns.len() >= 2 {
            seq![',']
        } else {
            Seq::empty()
        }) + columns.last().name@ + seq![' ']
    }
}

/// Things that write themselves as SQL text for a backend.
pub trait WriteSql {
    fn write_sql<B: Backend>(&self, backend: &B, output: &mut String);
}

impl WriteSql for DataType {
    /// Hands the type to the backend's `write_sql_type`; writes nothing.
    fn write_sql<B: Backend>(&self, backend: &B, output: &mut String)
        ensures
            final(output)@ == old(output)@,
            call_ensures(B::write_sql_type, (backend, self), ()),
    {
        backend.write_sql_type(self);
    }
}

impl WriteSql for ColumnDef {
    /// The column's name and a space.
    fn write_sql<B: Backend>(&self, backend: &B, output: &mut String)
        ensures
            final(output)@ == old(output)@ + self.name@ + seq![' '],
    {
        output.append(self.name.as_str());
        push_char(output, ' ');
    }
}

impl WriteSql for ColumnRef {
    /// The column's name, between double quotes unless it is a plain identifier.
    fn write_sql<B: Backend>(&self, backend: &B, output: &mut String)
        ensures
            final(output)@ == old(output)@ + column_name_sql(self.name@),
    {
        if is_identifier(self.name.as_str()) {
            output.append(self.name.as_str());
        } else {
            push_char(output, '"');
            output.append(self.name.as_str());
            push_char(output, '"');
        }
    }
}

fn write_column_names<B: Backend>(backend: &B, output: &mut String, columns: &[ColumnRef])
    ensures
        final(output)@ == old(output)@ + column_names_sql(columns@),
{
    let ghost start = output@;
    let mut i: usize = 0;
    while i < columns.len()
        invariant
            i <= columns@.len(),
            output@ == start + column_names_sql(columns@.take(i as int)),
        decreases columns@.len() - i,
    {
        assert(columns@.take(i + 1).drop_last() =~= columns@.take(i as int));
        if i > 0 {
            push_char(output, ',');
        }
        columns[i].write_sql(backend, output);
        i = i + 1;
    }
    assert(columns@.take(columns@.len() as int) =~= columns@);
}

impl WriteSql for SelectFragment {
    /// `SELECT` and the columns' names joined by commas.
    fn write_sql<B: Backend>(&self, backend: &B, output: &mut String)
        ensures
            final(output)@ == old(output)@ + "SELECT "@ + column_names_sql(self.spec_columns()),
    {
        output.append("SELECT ");
        write_column_names(backend, output, self.get_columns());
    }
}

impl WriteSql for WhereFragment {
    /// `SELECT` and the columns' names joined by commas.
    fn write_sql<B: Backend>(&self, backend: &B, output: &mut String)
        ensures
            final(output)@ == old(output)@ + "SELECT "@ + column_names_sql(self.spec_columns()),
    {
        output.append("SELECT ");
        write_column_names(backend, output, self.get_columns());
    }
}

} // verus!
