//! References to tables and to their columns.
use vstd::prelude::*;
use vstd::string::StringExecFns;
use crate::text::push_char;

verus! {

/// A table, with its schema (may be empty) and an optional alias (empty when none).
#[derive(Clone, Debug)]
pub struct TableRef {
    pub name: &'static str,
    pub schema: &'static str,
    pub alias: String,
}

/// The name a table is known by: its alias when it has one, else the schema
/// (when not empty), a dot and the name.
pub open spec fn table_full_name(t: TableRef) -> Seq<char> {
    if t.alias@.len() != 0 {
        t.alias@
    } else if t.schema@.len() != 0 {
        t.schema@ + seq!['.'] + t.name@
    } else {
        t.name@
    }
}

impl TableRef {
    /// A reference with empty name, schema and alias.
    pub fn empty() -> (r: Self)
        ensures
            r.name@.len() == 0,
            r.schema@.len() == 0,
            r.alias@.len() == 0,
    {
        proof {
            reveal_strlit("");
        }
        TableRef { name: "", schema: "", alias: String::new() }
    }

    /// The name the table is known by in a query.
    pub fn full_name(&self) -> (r: String)
        ensures
            r@ == table_full_name(*self),
    {
        let mut result = String::new();
        if !self.alias.as_str().is_empty() {
            result.append(self.alias.as_str());
        } else {
            if !self.schema.is_empty() {
                result.append(self.schema);
                push_char(&mut result, '.');
            }
            result.append(self.name);
        }
        assert(result@ =~= table_full_name(*self));
        result
    }

    /// The same table under another alias.
    pub fn with_alias(&self, alias: String) -> (r: Self)
        ensures
            r.name == self.name,
            r.schema == self.schema,
            r.alias@ == alias@,
    {
        TableRef { name: self.name, schema: self.schema, alias }
    }
}

/// A table reference that is being declared (written with its alias in full).
#[derive(Clone, Debug)]
pub struct DeclareTableRef(pub TableRef);

/// A column of a table; table and schema may be empty.
#[derive(Clone, Copy, Debug)]
pub struct ColumnRef {
    pub name: &'static str,
    pub table: &'static str,
    pub schema: &'static str,
}

impl ColumnRef {
    /// The table the column belongs to, without alias.
    pub fn table(&self) -> (r: TableRef)
        ensures
            r.name == self.table,
            r.schema == self.schema,
            r.alias@.len() == 0,
    {
        TableRef { name: self.table, schema: self.schema, alias: String::new() }
    }
}

} // verus!
