//! Column definitions: the type, constraints and references of each column
//! of an entity's table.
use vstd::prelude::*;
use crate::expression::Expression;
use crate::table_ref::ColumnRef;
use crate::value::Value;

verus! {

/// The part a column plays in its table's primary key.
#[derive(Clone, Copy, Debug, PartialEq, Eq, Structural)]
pub enum PrimaryKeyType {
    /// The column alone is the primary key.
    PrimaryKey,
    /// The column is one of several that form the primary key.
    PartOfPrimaryKey,
    /// The column is not part of the primary key.
    NotPrimaryKey,
}

impl Default for PrimaryKeyType {
    fn default() -> (r: Self)
        ensures
            r == PrimaryKeyType::NotPrimaryKey,
    {
        PrimaryKeyType::NotPrimaryKey
    }
}

/// What a foreign key does when the referenced row is deleted or updated.
#[derive(Clone, Copy, Debug, PartialEq, Eq, Structural)]
pub enum Action {
    NoAction,
    Restrict,
    Cascade,
    SetNull,
    SetDefault,
}

impl Default for Action {
    fn default() -> (r: Self)
        ensures
            r == Action::NoAction,
    {
        Action::NoAction
    }
}

/// A column of an entity's table.
///
/// `column_type` pairs a dialect name with the SQL type to use there in place
/// of the type derived from `value`; the generic dialect is the empty name.
#[derive(Debug)]
pub struct ColumnDef {
    pub column_ref: ColumnRef,
    pub column_type: Vec<(&'static str, &'static str)>,
    /// The prototype of the column's values.
    pub value: Value,
    pub nullable: bool,
    pub default: Option<Expression>,
    pub primary_key: PrimaryKeyType,
    pub unique: bool,
    pub references: Option<ColumnRef>,
    pub on_delete: Option<Action>,
    pub on_update: Option<Action>,
    /// Whether the column may be left unset on insert.
    pub passive: bool,
    /// Comment attached to the column (empty when none).
    pub comment: &'static str,
}

impl ColumnDef {
    /// The column's name.
    pub fn name(&self) -> (r: &'static str)
        ensures
            r == self.column_ref.name,
    {
        self.column_ref.name
    }

    /// The name of the column's table.
    pub fn table(&self) -> (r: &'static str)
        ensures
            r == self.column_ref.table,
    {
        self.column_ref.table
    }

    /// The name of the column's schema.
    pub fn schema(&self) -> (r: &'static str)
        ensures
            r == self.column_ref.schema,
    {
        self.column_ref.schema
    }
}

} // verus!
