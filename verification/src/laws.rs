//! Properties that hold across the statement writers.
use vstd::prelude::*;
use crate::column::PrimaryKeyType;
use crate::ddl_writer::{
    create_schema_sql, create_table_head, create_table_sql, drop_schema_sql, drop_table_sql,
};
use crate::dml_writer::{delete_sql, select_head, select_sql};
use crate::entity::{DataSet, EntityDef};
use crate::expression::Expression;
use crate::insert_writer::{
    RowFields, assignments_sql, column_names, field_names, insert_head, insert_names, insert_sql,
};

verus! {

/// Every statement written after other text starts on a new line, and one
/// written into empty text does not.
pub proof fn law_statements_start_on_new_line(
    prev: Seq<char>,
    e: EntityDef,
    flag: bool,
    condition: Expression,
    columns: Seq<Expression>,
    from: DataSet,
    limit: Option<u32>,
    rows: Seq<RowFields>,
)
    requires
        rows.len() > 0,
    ensures
        prev.len() > 0 ==> create_table_sql(prev, e, flag)[0] == '\n',
        prev.len() > 0 ==> create_schema_sql(prev, e, flag)[0] == '\n',
        prev.len() > 0 ==> drop_schema_sql(prev, e, flag)[0] == '\n',
        prev.len() > 0 ==> drop_table_sql(prev, e, flag)[0] == '\n',
        prev.len() > 0 ==> delete_sql(prev, e, condition)[0] == '\n',
        prev.len() > 0 ==> select_sql(prev, columns, from, condition, limit)[0] == '\n',
        prev.len() > 0 ==> insert_sql(prev, e, rows, flag)[0] == '\n',
        prev.len() == 0 ==> create_table_sql(prev, e, flag)[0] == 'C',
        prev.len() == 0 ==> delete_sql(prev, e, condition)[0] == 'D',
        prev.len() == 0 ==> select_sql(prev, columns, from, condition, limit)[0] == 'S',
        prev.len() == 0 ==> insert_sql(prev, e, rows, flag)[0] == 'I',
{
    reveal_strlit("CREATE TABLE ");
    reveal_strlit("CREATE SCHEMA ");
    reveal_strlit("DROP SCHEMA ");
    reveal_strlit("DROP TABLE ");
    reveal_strlit("DELETE FROM ");
    reveal_strlit("SELECT ");
    reveal_strlit("INSERT INTO ");
    assert(create_table_sql(prev, e, flag)[0] == create_table_head(prev, e, flag)[0]);
    assert(select_sql(prev, columns, from, condition, limit)[0] == select_head(
        prev,
        columns,
        from,
        condition,
    )[0]);
    assert(insert_sql(prev, e, rows, flag)[0] == insert_head(prev, e, rows)[0]);
}

/// Inserting no rows writes nothing; a single row lists the names of its own
/// fields, several rows list every column of the entity.
pub proof fn law_insert_lists_columns(
    prev: Seq<char>,
    e: EntityDef,
    rows: Seq<RowFields>,
    update: bool,
)
    ensures
        rows.len() == 0 ==> insert_sql(prev, e, rows, update) == Seq::<char>::empty(),
        rows.len() == 1 ==> insert_names(e, rows) == field_names(rows[0]@),
        rows.len() > 1 ==> insert_names(e, rows) == column_names(e.columns@),
{
}

/// An upsert assigns no column of the primary key: when every listed column
/// is part of the key, there is nothing to assign.
pub proof fn law_upsert_skips_key_columns(e: EntityDef, positions: Seq<usize>)
    requires
        forall|i: int| 0 <= i < positions.len() ==> #[trigger] e.columns@[positions[i] as int].primary_key
            != PrimaryKeyType::NotPrimaryKey,
    ensures
        assignments_sql(e, positions) == Seq::<char>::empty(),
    decreases positions.len(),
{
    if positions.len() > 0 {
        let last = positions.len() - 1;
        assert(e.columns@[positions[last] as int].primary_key != PrimaryKeyType::NotPrimaryKey);
        law_upsert_skips_key_columns(e, positions.drop_last());
    }
}

} // verus!
