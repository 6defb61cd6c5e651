//! The description of an entity's table, and the data sets a query reads from.
use vstd::prelude::*;
use crate::column::ColumnDef;
use crate::expression::{Expression, JoinType};
use crate::table_ref::TableRef;

verus! {

/// The static description of an entity: its table, its columns in
/// declaration order, the columns of its primary key and those of each
/// unique constraint (as positions in `columns`).
#[derive(Debug)]
pub struct EntityDef {
    pub table: TableRef,
    pub columns: Vec<ColumnDef>,
    pub primary_key: Vec<usize>,
    pub unique_defs: Vec<Vec<usize>>,
}

impl EntityDef {
    /// Every key position names one of the columns.
    pub open spec fn wf(&self) -> bool {
        &&& forall|i: int| 0 <= i < self.primary_key@.len() ==> #[trigger] self.primary_key@[i]
            < self.columns@.len()
        &&& forall|u: int, i: int|
            0 <= u < self.unique_defs@.len() && 0 <= i < self.unique_defs@[u]@.len()
                ==> #[trigger] self.unique_defs@[u]@[i] < self.columns@.len()
    }

    /// Whether every key position names one of the columns.
    pub fn is_wf(&self) -> (r: bool)
        ensures
            r == self.wf(),
    {
        let n = self.columns.len();
        let mut i: usize = 0;
        while i < self.primary_key.len()
            invariant
                i <= self.primary_key@.len(),
                n == self.columns@.len(),
                forall|j: int| 0 <= j < i ==> #[trigger] self.primary_key@[j] < n,
            decreases self.primary_key@.len() - i,
        {
            if self.primary_key[i] >= n {
                return false;
            }
            i = i + 1;
        }
        let mut u: usize = 0;
        while u < self.unique_defs.len()
            invariant
                u <= self.unique_defs@.len(),
                n == self.columns@.len(),
                forall|j: int| 0 <= j < self.primary_key@.len() ==> #[trigger] self.primary_key@[j] < n,
                forall|a: int, b: int|
                    0 <= a < u && 0 <= b < self.unique_defs@[a]@.len()
                        ==> #[trigger] self.unique_defs@[a]@[b] < n,
            decreases self.unique_defs@.len() - u,
        {
            let def = &self.unique_defs[u];
            let mut k: usize = 0;
            while k < def.len()
                invariant
                    u < self.unique_defs@.len(),
                    *def == self.unique_defs@[u as int],
                    k <= def@.len(),
                    n == self.columns@.len(),
                    forall|b: int| 0 <= b < k ==> #[trigger] def@[b] < n,
                decreases def@.len() - k,
            {
                if def[k] >= n {
                    return false;
                }
                k = k + 1;
            }
            u = u + 1;
        }
        true
    }

    /// Entities write their columns without the table's name.
    pub fn qualified_columns(&self) -> (r: bool)
        ensures
            r == false,
    {
        false
    }
}

/// What a query reads from: a table or a join of two data sets.
#[derive(Debug)]
pub enum DataSet {
    Table(TableRef),
    Join(Box<Join>),
}

/// Two data sets joined, with an optional join condition.
#[derive(Debug)]
pub struct Join {
    pub join: JoinType,
    pub lhs: DataSet,
    pub rhs: DataSet,
    pub on: Option<Expression>,
}

/// Whether columns read from the data set are written with their table:
/// true of joins only.
pub open spec fn spec_qualified_columns(d: DataSet) -> bool {
    d is Join
}

impl DataSet {
    /// Whether columns read from this data set are written with their table.
    pub fn qualified_columns(&self) -> (r: bool)
        ensures
            r == spec_qualified_columns(*self),
    {
        match self {
            DataSet::Table(_) => false,
            DataSet::Join(_) => true,
        }
    }
}

/// A foreign key's target: the referenced entity's table and the columns
/// that the key points at.
#[derive(Debug)]
pub struct References {
    table: TableRef,
    columns: Vec<ColumnDef>,
}

impl References {
    /// The reference to `columns` of the entity stored in `table`.
    pub fn new(table: TableRef, columns: Vec<ColumnDef>) -> (r: Self)
        ensures
            r.spec_table() == table,
            r.spec_columns() == columns@,
    {
        References { table, columns }
    }

    /// The referenced table.
    pub closed spec fn spec_table(&self) -> TableRef {
        self.table
    }

    /// The referenced columns.
    pub closed spec fn spec_columns(&self) -> Seq<ColumnDef> {
        self.columns@
    }

    /// The referenced table.
    pub fn table_ref(&self) -> (r: &TableRef)
        ensures
            *r == self.spec_table(),
    {
        &self.table
    }

    /// The referenced columns.
    pub fn columns(&self) -> (r: &[ColumnDef])
        ensures
            r@ == self.spec_columns(),
    {
        self.columns.as_slice()
    }
}

} // verus!
