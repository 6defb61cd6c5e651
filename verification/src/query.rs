//! Results of queries, and the decisions taken around saving and deleting
//! entities.
use vstd::prelude::*;
use vstd::string::StrSliceExecFns;
use vstd::string::StringExecFns;
use crate::entity::EntityDef;
use crate::insert_writer::{RowFields, insert_sql, rows_writable};
use crate::sql_writer::GenericSqlWriter;
use crate::text::{int_text, write_uint};
use crate::value::Value;

verus! {

/// What a modifying statement did: how many rows it touched and the last
/// identifier it affected, when the backend reports one.
#[derive(Clone, Copy, Debug, PartialEq, Eq, Structural)]
pub struct RowsAffected {
    pub rows_affected: u64,
    pub last_affected_id: Option<i64>,
}

impl Default for RowsAffected {
    fn default() -> (r: Self)
        ensures
            r == (RowsAffected { rows_affected: 0, last_affected_id: None }),
    {
        RowsAffected { rows_affected: 0, last_affected_id: None }
    }
}

/// The sum of the first `n` row counts.
pub open spec fn total_rows(items: Seq<RowsAffected>, n: int) -> int
    decreases n,
{
    if n <= 0 || n > items.len() {
        0
    } else {
        total_rows(items, n - 1) + items[n - 1].rows_affected
    }
}

/// The last identifier among the first `n` results that report one, else `start`.
pub open spec fn last_id(start: Option<i64>, items: Seq<RowsAffected>, n: int) -> Option<i64>
    decreases n,
{
    if n <= 0 || n > items.len() {
        start
    } else if items[n - 1].last_affected_id is Some {
        items[n - 1].last_affected_id
    } else {
        last_id(start, items, n - 1)
    }
}

impl RowsAffected {
    /// Adds up the row counts of `items`; the last identifier reported wins.
    pub fn extend(&mut self, items: Vec<RowsAffected>)
        requires
            old(self).rows_affected + total_rows(items@, items@.len() as int) <= u64::MAX,
        ensures
            final(self).rows_affected == old(self).rows_affected + total_rows(
                items@,
                items@.len() as int,
            ),
            final(self).last_affected_id == last_id(
                old(self).last_affected_id,
                items@,
                items@.len() as int,
            ),
    {
        let ghost start = *self;
        let mut i: usize = 0;
        while i < items.len()
            invariant
                i <= items@.len(),
                start.rows_affected + total_rows(items@, items@.len() as int) <= u64::MAX,
                self.rows_affected == start.rows_affected + total_rows(items@, i as int),
                self.last_affected_id == last_id(start.last_affected_id, items@, i as int),
            decreases items@.len() - i,
        {
            proof {
                lemma_total_rows_monotone(items@, i + 1, items@.len() as int);
            }
            self.rows_affected = self.rows_affected + items[i].rows_affected;
            if items[i].last_affected_id.is_some() {
                self.last_affected_id = items[i].last_affected_id;
            }
            i = i + 1;
        }
    }
}

proof fn lemma_total_rows_monotone(items: Seq<RowsAffected>, m: int, n: int)
    requires
        0 <= m <= n <= items.len(),
    ensures
        total_rows(items, m) <= total_rows(items, n),
    decreases n - m,
{
    if m < n {
        lemma_total_rows_monotone(items, m, n - 1);
    }
}

/// A row read by a query, with the labels of its columns.
#[derive(Debug)]
pub struct RowLabeled {
    pub labels: Vec<String>,
    pub values: Vec<Value>,
}

/// The position of the first label equal to `name`, if any.
pub open spec fn label_position(labels: Seq<String>, name: Seq<char>) -> Option<int> {
    if exists|i: int| 0 <= i < labels.len() && labels[i]@ == name {
        Some(
            choose|i: int|
                0 <= i < labels.len() && labels[i]@ == name && forall|j: int|
                    0 <= j < i ==> labels[j]@ != name,
        )
    } else {
        None
    }
}

impl RowLabeled {
    /// A row from its labels and values.
    pub fn new(labels: Vec<String>, values: Vec<Value>) -> (r: Self)
        ensures
            r.labels@ == labels@,
            r.values@ == values@,
    {
        RowLabeled { labels, values }
    }

    /// The labels of the columns.
    pub fn names(&self) -> (r: &Vec<String>)
        ensures
            r@ == self.labels@,
    {
        &self.labels
    }

    /// The values, in the order of the labels.
    pub fn values(&self) -> (r: &Vec<Value>)
        ensures
            r@ == self.values@,
    {
        &self.values
    }

    /// The value of the first column labelled `name`, if any.
    pub fn get_column(&self, name: &str) -> (r: Option<&Value>)
        requires
            label_position(self.labels@, name@) matches Some(i) ==> i < self.values@.len(),
        ensures
            r matches Some(v) ==> label_position(self.labels@, name@) matches Some(i) && *v
                == self.values@[i],
            r is None <==> label_position(self.labels@, name@) is None,
    {
        let target = String::from_str(name);
        let mut i: usize = 0;
        while i < self.labels.len()
            invariant
                i <= self.labels@.len(),
                target@ == name@,
                forall|j: int| 0 <= j < i ==> self.labels@[j]@ != name@,
                label_position(self.labels@, name@) matches Some(p) ==> p < self.values@.len(),
            decreases self.labels@.len() - i,
        {
            if self.labels[i] == target {
                proof {
                    lemma_first_label(self.labels@, name@, i as int);
                }
                return Some(&self.values[i]);
            }
            i = i + 1;
        }
        None
    }
}

proof fn lemma_first_label(labels: Seq<String>, name: Seq<char>, i: int)
    requires
        0 <= i < labels.len(),
        labels[i]@ == name,
        forall|j: int| 0 <= j < i ==> labels[j]@ != name,
    ensures
        label_position(labels, name) == Some(i),
{
    let k = choose|k: int|
        0 <= k < labels.len() && labels[k]@ == name && forall|j: int| 0 <= j < k ==> labels[j]@ != name;
    assert(0 <= k < labels.len() && labels[k]@ == name && forall|j: int|
        0 <= j < k ==> labels[j]@ != name) by {
        assert(0 <= i < labels.len() && labels[i]@ == name && forall|j: int|
            0 <= j < i ==> labels[j]@ != name);
    }
    if k < i {
        assert(labels[k]@ != name);
    } else if k > i {
        assert(labels[i]@ != name);
    }
}

/// Why saving or deleting an entity was refused.
#[derive(Clone, Copy, Debug, PartialEq, Eq, Structural)]
pub enum EntityError {
    /// Saving without a primary key would always insert.
    SaveWithoutPrimaryKey,
    /// Deleting without a primary key would delete nothing.
    DeleteWithoutPrimaryKey,
    /// Deleting one entity touched this many rows instead of one.
    UnexpectedRowsDeleted(u64),
}

/// The message of an error.
pub open spec fn error_message(e: EntityError) -> Seq<char> {
    match e {
        EntityError::SaveWithoutPrimaryKey => "Cannot save a entity without a primary key, it would always result in a insert"@,
        EntityError::DeleteWithoutPrimaryKey => "Cannot delete a entity without a primary key, it would delete nothing"@,
        EntityError::UnexpectedRowsDeleted(n) => "The query deleted "@ + int_text(n as int)
            + " rows instead of the expected 1"@,
    }
}

impl EntityError {
    /// The message describing the error.
    pub fn message(&self) -> (r: String)
        ensures
            r@ == error_message(*self),
    {
        match self {
            EntityError::SaveWithoutPrimaryKey => String::from_str(
                "Cannot save a entity without a primary key, it would always result in a insert",
            ),
            EntityError::DeleteWithoutPrimaryKey => String::from_str(
                "Cannot delete a entity without a primary key, it would delete nothing",
            ),
            EntityError::UnexpectedRowsDeleted(n) => {
                let mut r = String::from_str("The query deleted ");
                write_uint(&mut r, *n as u128);
                r.append(" rows instead of the expected 1");
                r
            },
        }
    }
}

impl EntityDef {
    /// The statement that saves one row of the entity: an insert that updates
    /// the row on a conflict over the primary key. Refused when the entity
    /// has no primary key.
    pub fn save_query(&self, writer: &GenericSqlWriter, row: RowFields) -> (r: Result<
        String,
        EntityError,
    >)
        requires
            self.wf(),
            rows_writable(seq![row]),
        ensures
            r is Ok <==> self.primary_key@.len() > 0,
            r is Err ==> r == Err::<String, EntityError>(EntityError::SaveWithoutPrimaryKey),
            r matches Ok(q) ==> q@ == insert_sql(Seq::empty(), *self, seq![row], true),
    {
        if self.primary_key.len() == 0 {
            return Err(EntityError::SaveWithoutPrimaryKey);
        }
        let mut query = String::new();
        let rows = vec![row];
        assert(rows@ =~= seq![row]);
        writer.write_insert(&mut query, self, &rows, true);
        Ok(query)
    }

    /// Whether an entity may be deleted by its primary key: refused when the
    /// entity has none.
    pub fn check_delete(&self) -> (r: Result<(), EntityError>)
        ensures
            r is Ok <==> self.primary_key@.len() > 0,
            r is Err ==> r == Err::<(), EntityError>(EntityError::DeleteWithoutPrimaryKey),
    {
        if self.primary_key.len() == 0 {
            Err(EntityError::DeleteWithoutPrimaryKey)
        } else {
            Ok(())
        }
    }
}

/// Whether deleting one entity touched exactly one row.
pub fn deleted_one(affected: &RowsAffected) -> (r: Result<(), EntityError>)
    ensures
        r is Ok <==> affected.rows_affected == 1,
        r is Err ==> r == Err::<(), EntityError>(
            EntityError::UnexpectedRowsDeleted(affected.rows_affected),
        ),
{
    if affected.rows_affected == 1 {
        Ok(())
    } else {
        Err(EntityError::UnexpectedRowsDeleted(affected.rows_affected))
    }
}


proof fn lemma_prefix_counts(a: Seq<RowsAffected>, b: Seq<RowsAffected>, start: Option<i64>, k: int)
    requires
        0 <= k <= a.len(),
    ensures
        total_rows(a + b, k) == total_rows(a, k),
        last_id(start, a + b, k) == last_id(start, a, k),
    decreases k,
{
    if k > 0 {
        lemma_prefix_counts(a, b, start, k - 1);
        assert((a + b)[k - 1] == a[k - 1]);
    }
}

proof fn lemma_suffix_counts(a: Seq<RowsAffected>, b: Seq<RowsAffected>, start: Option<i64>, n: int)
    requires
        0 <= n <= b.len(),
    ensures
        total_rows(a + b, a.len() + n) == total_rows(a, a.len() as int) + total_rows(b, n),
        last_id(start, a + b, a.len() + n) == last_id(last_id(start, a, a.len() as int), b, n),
    decreases n,
{
    if n == 0 {
        lemma_prefix_counts(a, b, start, a.len() as int);
    } else {
        lemma_suffix_counts(a, b, start, n - 1);
        assert((a + b)[a.len() + n - 1] == b[n - 1]);
    }
}

/// Adding up results in two steps gives what adding them up at once gives:
/// the row counts add, and the last identifier reported wins.
pub proof fn law_extend_in_parts(start: Option<i64>, a: Seq<RowsAffected>, b: Seq<RowsAffected>)
    ensures
        total_rows(a + b, (a + b).len() as int) == total_rows(a, a.len() as int) + total_rows(
            b,
            b.len() as int,
        ),
        last_id(start, a + b, (a + b).len() as int) == last_id(
            last_id(start, a, a.len() as int),
            b,
            b.len() as int,
        ),
{
    lemma_suffix_counts(a, b, start, b.len() as int);
}

} // verus!
