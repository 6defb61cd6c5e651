//! Rendering of `INSERT`, with one or more rows and an optional upsert clause.
use vstd::prelude::*;
use vstd::string::StrSliceExecFns;
use vstd::string::StringExecFns;
use crate::column::{ColumnDef, PrimaryKeyType};
use crate::context::{Context, Fragment};
use crate::ddl_writer::{key_names, quoted_names, statement_break};
use crate::entity::EntityDef;
use crate::sql_writer::{
    GenericSqlWriter, quoted_identifier, table_ref_sql, value_sql, value_writable,
};
use crate::text::push_char;
use crate::util::{lemma_separated_push, same_text, separated};
use crate::value::Value;

verus! {

/// A row to insert: column names with their values, in column order.
pub type RowFields = Vec<(&'static str, Value)>;

/// Whether the field at position `j` exists and names column `c`.
pub open spec fn field_names_column(c: ColumnDef, fields: Seq<(&'static str, Value)>, j: int) -> bool {
    0 <= j < fields.len() && fields[j].0@ == c.column_ref.name@
}

/// The position among the fields reached after the first `k` columns: a
/// field is taken when it names the column at hand.
pub open spec fn field_cursor(cols: Seq<ColumnDef>, fields: Seq<(&'static str, Value)>, k: int) -> int
    decreases k,
{
    if k <= 0 {
        0
    } else {
        let j = field_cursor(cols, fields, k - 1);
        if field_names_column(cols[k - 1], fields, j) {
            j + 1
        } else {
            j
        }
    }
}

/// What a row writes for column `k`: the value of the field that names it,
/// else `DEFAULT` when several rows are written, else nothing.
pub open spec fn cell_sql(
    cols: Seq<ColumnDef>,
    fields: Seq<(&'static str, Value)>,
    single: bool,
    fragment: Fragment,
    k: int,
) -> Seq<char> {
    let j = field_cursor(cols, fields, k);
    if field_names_column(cols[k], fields, j) {
        value_sql(fragment, fields[j].1)
    } else if single {
        Seq::empty()
    } else {
        "DEFAULT"@
    }
}

/// What a row writes for each of the first `n` columns.
pub open spec fn row_cells(
    cols: Seq<ColumnDef>,
    fields: Seq<(&'static str, Value)>,
    single: bool,
    fragment: Fragment,
    n: int,
) -> Seq<Seq<char>> {
    Seq::new(n as nat, |k: int| cell_sql(cols, fields, single, fragment, k))
}

/// A row of `VALUES`: its cells between parentheses, joined by `, `.
pub open spec fn row_sql(
    cols: Seq<ColumnDef>,
    fields: Seq<(&'static str, Value)>,
    single: bool,
    fragment: Fragment,
) -> Seq<char> {
    seq!['('] + separated(row_cells(cols, fields, single, fragment, cols.len() as int), ", "@)
        + seq![')']
}

/// The rows of `VALUES`, joined by `,` and a newline.
pub open spec fn rows_sql(cols: Seq<ColumnDef>, rows: Seq<RowFields>, single: bool) -> Seq<char>
    decreases rows.len(),
{
    if rows.len() == 0 {
        Seq::empty()
    } else {
        rows_sql(cols, rows.drop_last(), single) + (if rows.len() >= 2 {
            ",\n"@
        } else {
            Seq::empty()
        }) + row_sql(cols, rows.last()@, single, Fragment::SqlInsertIntoValues)
    }
}

/// The names of the fields.
pub open spec fn field_names(fields: Seq<(&'static str, Value)>) -> Seq<Seq<char>> {
    fields.map_values(|f: (&'static str, Value)| f.0@)
}

/// The names of the columns.
pub open spec fn column_names(cols: Seq<ColumnDef>) -> Seq<Seq<char>> {
    cols.map_values(|c: ColumnDef| c.column_ref.name@)
}

/// The columns an upsert may update, as positions among the first `k`
/// columns: with a single row those it gives a value, else all.
pub open spec fn upsert_positions(
    cols: Seq<ColumnDef>,
    names: Seq<Seq<char>>,
    single: bool,
    k: int,
) -> Seq<usize>
    decreases k,
{
    if k <= 0 {
        Seq::empty()
    } else {
        let rest = upsert_positions(cols, names, single, k - 1);
        if !single || names.contains(cols[k - 1].column_ref.name@) {
            rest.push((k - 1) as usize)
        } else {
            rest
        }
    }
}

/// `"name" = EXCLUDED."name"`.
pub open spec fn assignment_sql(name: Seq<char>) -> Seq<char> {
    quoted_identifier(name) + " = EXCLUDED."@ + quoted_identifier(name)
}

/// The assignments of an upsert for the columns at the given positions that
/// are not part of the primary key, joined by `,` and a newline.
pub open spec fn assignments_sql(e: EntityDef, positions: Seq<usize>) -> Seq<char>
    decreases positions.len(),
{
    if positions.len() == 0 {
        Seq::empty()
    } else {
        let rest = assignments_sql(e, positions.drop_last());
        let c = e.columns@[positions.last() as int];
        if c.primary_key == PrimaryKeyType::NotPrimaryKey {
            rest + (if rest.len() > 0 {
                ",\n"@
            } else {
                Seq::empty()
            }) + assignment_sql(c.column_ref.name@)
        } else {
            rest
        }
    }
}

/// The upsert clause: on a conflict over the primary key, update the columns
/// at the given positions; nothing when the entity has no primary key.
pub open spec fn upsert_sql(e: EntityDef, positions: Seq<usize>) -> Seq<char> {
    if e.primary_key@.len() == 0 {
        Seq::empty()
    } else {
        "\nON CONFLICT"@ + " ("@ + quoted_names(key_names(e, e.primary_key@), ", "@) + seq![')']
            + " DO UPDATE SET\n"@ + assignments_sql(e, positions)
    }
}

/// The names listed after the table: those of the single row's fields, or
/// those of all the columns when there are several rows.
pub open spec fn insert_names(e: EntityDef, rows: Seq<RowFields>) -> Seq<Seq<char>> {
    if rows.len() == 1 {
        field_names(rows[0]@)
    } else {
        column_names(e.columns@)
    }
}

/// The start of `INSERT`: the table and the column names.
pub open spec fn insert_head(prev: Seq<char>, e: EntityDef, rows: Seq<RowFields>) -> Seq<char> {
    statement_break(prev) + "INSERT INTO "@ + table_ref_sql(Fragment::SqlInsertInto, e.table) + " ("@
        + quoted_names(insert_names(e, rows), ", "@) + ") VALUES\n"@
}

/// `INSERT` of the rows (nothing when there are none), with the upsert
/// clause when `update` is set.
pub open spec fn insert_sql(prev: Seq<char>, e: EntityDef, rows: Seq<RowFields>, update: bool) -> Seq<
    char,
> {
    if rows.len() == 0 {
        Seq::empty()
    } else {
        let single = rows.len() == 1;
        insert_head(prev, e, rows) + (rows_sql(e.columns@, rows, single) + (if update {
            upsert_sql(
                e,
                upsert_positions(e.columns@, field_names(rows[0]@), single, e.columns@.len() as int),
            )
        } else {
            Seq::empty()
        }) + seq![';'])
    }
}

/// Whether every value of every row can be written.
pub open spec fn rows_writable(rows: Seq<RowFields>) -> bool {
    forall|r: int, j: int|
        0 <= r < rows.len() && 0 <= j < rows[r]@.len() ==> #[trigger] value_writable(
            rows[r]@[j].1,
        )
}

/// Whether one of the fields has the name.
fn names_field(fields: &RowFields, name: &str) -> (r: bool)
    ensures
        r == field_names(fields@).contains(name@),
{
    let mut i: usize = 0;
    while i < fields.len()
        invariant
            i <= fields@.len(),
            forall|j: int| 0 <= j < i ==> fields@[j].0@ != name@,
        decreases fields@.len() - i,
    {
        if same_text(fields[i].0, name) {
            assert(field_names(fields@)[i as int] == name@);
            return true;
        }
        i = i + 1;
    }
    proof {
        if field_names(fields@).contains(name@) {
            let j = choose|j: int| 0 <= j < field_names(fields@).len() && field_names(fields@)[j] == name@;
            assert(fields@[j].0@ == name@);
        }
    }
    false
}

proof fn lemma_quoted_identifier_not_empty(s: Seq<char>)
    ensures
        quoted_identifier(s).len() > 0,
{
    reveal(quoted_identifier);
}

impl GenericSqlWriter {
    /// Appends the quoted names of the fields, joined by `, `.
    fn write_field_names(&self, context: &Context, out: &mut String, fields: &RowFields)
        ensures
            final(out)@ == old(out)@ + quoted_names(field_names(fields@), ", "@),
    {
        let ghost start = out@;
        let mut i: usize = 0;
        assert(field_names(fields@.take(0)) =~= Seq::<Seq<char>>::empty());
        while i < fields.len()
            invariant
                i <= fields@.len(),
                out@ == start + quoted_names(field_names(fields@.take(i as int)), ", "@),
            decreases fields@.len() - i,
        {
            assert(field_names(fields@.take(i + 1)).drop_last() =~= field_names(
                fields@.take(i as int),
            ));
            if i > 0 {
                out.append(", ");
            }
            self.write_identifier_quoted(context, out, fields[i].0);
            i = i + 1;
        }
        assert(fields@.take(fields@.len() as int) =~= fields@);
    }

    /// Appends the quoted names of the columns, joined by `, `.
    fn write_column_names(&self, context: &Context, out: &mut String, columns: &Vec<ColumnDef>)
        ensures
            final(out)@ == old(out)@ + quoted_names(column_names(columns@), ", "@),
    {
        let ghost start = out@;
        let mut i: usize = 0;
        assert(column_names(columns@.take(0)) =~= Seq::<Seq<char>>::empty());
        while i < columns.len()
            invariant
                i <= columns@.len(),
                out@ == start + quoted_names(column_names(columns@.take(i as int)), ", "@),
            decreases columns@.len() - i,
        {
            assert(column_names(columns@.take(i + 1)).drop_last() =~= column_names(
                columns@.take(i as int),
            ));
            if i > 0 {
                out.append(", ");
            }
            self.write_identifier_quoted(context, out, columns[i].name());
            i = i + 1;
        }
        assert(columns@.take(columns@.len() as int) =~= columns@);
    }

    /// Appends one row of `VALUES`: for each column the value of the field
    /// that names it, else `DEFAULT` when several rows are written.
    fn write_insert_row(
        &self,
        context: &Context,
        out: &mut String,
        columns: &Vec<ColumnDef>,
        fields: &RowFields,
        single: bool,
    )
        requires
            forall|j: int| 0 <= j < fields@.len() ==> #[trigger] value_writable(fields@[j].1),
        ensures
            final(out)@ == old(out)@ + row_sql(columns@, fields@, single, context.fragment),
    {
        let ghost start = out@;
        push_char(out, '(');
        let ghost open = out@;
        let mut previous_wrote = false;
        let mut j: usize = 0;
        let mut k: usize = 0;
        assert(row_cells(columns@, fields@, single, context.fragment, 0) =~= Seq::<
            Seq<char>,
        >::empty());
        while k < columns.len()
            invariant
                k <= columns@.len(),
                forall|i: int| 0 <= i < fields@.len() ==> #[trigger] value_writable(fields@[i].1),
                j == field_cursor(columns@, fields@, k as int),
                j <= fields@.len(),
                out@ == open + separated(
                    row_cells(columns@, fields@, single, context.fragment, k as int),
                    ", "@,
                ),
                previous_wrote == (k > 0 && cell_sql(
                    columns@,
                    fields@,
                    single,
                    context.fragment,
                    k - 1,
                ).len() > 0),
            decreases columns@.len() - k,
        {
            let ghost cells = row_cells(columns@, fields@, single, context.fragment, k as int);
            let ghost cell = cell_sql(columns@, fields@, single, context.fragment, k as int);
            proof {
                lemma_separated_push(cells, cell, ", "@);
                assert(row_cells(columns@, fields@, single, context.fragment, k + 1) =~= cells.push(
                    cell,
                ));
            }
            let mut piece = String::new();
            if j < fields.len() && same_text(fields[j].0, columns[k].name()) {
                self.write_value(context, &mut piece, &fields[j].1);
                j = j + 1;
            } else if !single {
                piece.append("DEFAULT");
            }
            assert(piece@ == cell);
            if previous_wrote {
                out.append(", ");
            }
            previous_wrote = !piece.as_str().is_empty();
            out.append(piece.as_str());
            k = k + 1;
        }
        push_char(out, ')');
        assert(out@ =~= start + row_sql(columns@, fields@, single, context.fragment));
    }

    /// Appends the assignments of an upsert for the columns at the given
    /// positions that are not part of the primary key.
    fn write_assignments(
        &self,
        context: &Context,
        out: &mut String,
        entity: &EntityDef,
        positions: &Vec<usize>,
    )
        requires
            forall|i: int| 0 <= i < positions@.len() ==> #[trigger] positions@[i]
                < entity.columns@.len(),
        ensures
            final(out)@ == old(out)@ + assignments_sql(*entity, positions@),
    {
        let ghost start = out@;
        let mut i: usize = 0;
        let mut wrote = false;
        assert(positions@.take(0) =~= Seq::<usize>::empty());
        while i < positions.len()
            invariant
                i <= positions@.len(),
                forall|m: int| 0 <= m < positions@.len() ==> #[trigger] positions@[m]
                    < entity.columns@.len(),
                out@ == start + assignments_sql(*entity, positions@.take(i as int)),
                wrote == (assignments_sql(*entity, positions@.take(i as int)).len() > 0),
            decreases positions@.len() - i,
        {
            assert(positions@.take(i + 1).drop_last() =~= positions@.take(i as int));
            let column = &entity.columns[positions[i]];
            if column.primary_key == PrimaryKeyType::NotPrimaryKey {
                if wrote {
                    out.append(",\n");
                }
                self.write_identifier_quoted(context, out, column.name());
                out.append(" = EXCLUDED.");
                self.write_identifier_quoted(context, out, column.name());
                proof {
                    lemma_quoted_identifier_not_empty(column.column_ref.name@);
                }
                wrote = true;
            }
            i = i + 1;
        }
        assert(positions@.take(positions@.len() as int) =~= positions@);
    }

    /// Appends the upsert clause of `INSERT`: on a conflict over the primary
    /// key, the columns at the given positions that are not part of it are
    /// updated; nothing when the entity has no primary key.
    pub fn write_insert_update_fragment(
        &self,
        context: &Context,
        out: &mut String,
        entity: &EntityDef,
        columns: &Vec<usize>,
    )
        requires
            entity.wf(),
            forall|i: int| 0 <= i < columns@.len() ==> #[trigger] columns@[i]
                < entity.columns@.len(),
        ensures
            final(out)@ == old(out)@ + upsert_sql(*entity, columns@),
    {
        if entity.primary_key.len() == 0 {
            return;
        }
        let ghost start = out@;
        out.append("\nON CONFLICT");
        let conflict_context = Context { fragment: Fragment::SqlInsertIntoOnConflict, ..*context };
        out.append(" (");
        self.write_key_names(&conflict_context, out, entity, &entity.primary_key, ", ");
        push_char(out, ')');
        out.append(" DO UPDATE SET\n");
        self.write_assignments(&conflict_context, out, entity, columns);
        assert(out@ =~= start + upsert_sql(*entity, columns@));
    }
}


/// The positions of the columns an upsert may update.
fn upsert_columns(columns: &Vec<ColumnDef>, first: &RowFields, single: bool) -> (r: Vec<usize>)
    ensures
        r@ == upsert_positions(columns@, field_names(first@), single, columns@.len() as int),
        forall|i: int| 0 <= i < r@.len() ==> #[trigger] r@[i] < columns@.len(),
{
    let mut positions: Vec<usize> = Vec::new();
    let mut k: usize = 0;
    while k < columns.len()
        invariant
            k <= columns@.len(),
            positions@ == upsert_positions(columns@, field_names(first@), single, k as int),
            forall|i: int| 0 <= i < positions@.len() ==> #[trigger] positions@[i] < k,
        decreases columns@.len() - k,
    {
        if !single || names_field(first, columns[k].name()) {
            positions.push(k);
        }
        k = k + 1;
    }
    positions
}

impl GenericSqlWriter {
    fn write_insert_head(
        &self,
        context: &Context,
        out: &mut String,
        entity: &EntityDef,
        rows: &Vec<RowFields>,
    )
        requires
            context.fragment == Fragment::SqlInsertInto,
        ensures
            final(out)@ == old(out)@ + insert_head(old(out)@, *entity, rows@),
    {
        let ghost start = out@;
        if !out.as_str().is_empty() {
            push_char(out, '\n');
        }
        out.append("INSERT INTO ");
        self.write_table_ref(context, out, &entity.table);
        out.append(" (");
        if rows.len() == 1 {
            self.write_field_names(context, out, &rows[0]);
        } else {
            self.write_column_names(context, out, &entity.columns);
        }
        out.append(") VALUES\n");
        assert(out@ =~= start + insert_head(start, *entity, rows@));
    }

    fn write_insert_rows(
        &self,
        context: &Context,
        out: &mut String,
        columns: &Vec<ColumnDef>,
        rows: &Vec<RowFields>,
        single: bool,
    )
        requires
            context.fragment == Fragment::SqlInsertIntoValues,
            rows_writable(rows@),
        ensures
            final(out)@ == old(out)@ + rows_sql(columns@, rows@, single),
    {
        let ghost start = out@;
        let mut r: usize = 0;
        while r < rows.len()
            invariant
                r <= rows@.len(),
                context.fragment == Fragment::SqlInsertIntoValues,
                rows_writable(rows@),
                out@ == start + rows_sql(columns@, rows@.take(r as int), single),
            decreases rows@.len() - r,
        {
            assert(rows@.take(r + 1).drop_last() =~= rows@.take(r as int));
            assert forall|j: int| 0 <= j < rows@[r as int]@.len() implies #[trigger] value_writable(
                rows@[r as int]@[j].1,
            ) by {
                assert(value_writable(rows@[r as int]@[j].1));
            }
            if r > 0 {
                out.append(",\n");
            }
            self.write_insert_row(context, out, columns, &rows[r], single);
            r = r + 1;
        }
        assert(rows@.take(rows@.len() as int) =~= rows@);
    }

    /// Appends `INSERT` of the rows into the entity's table (nothing when
    /// there are no rows). A single row lists only the columns it gives a
    /// value; several rows list every column and write `DEFAULT` where a row
    /// gives none. With `update`, a conflict over the primary key updates the
    /// other listed columns.
    pub fn write_insert(
        &self,
        out: &mut String,
        entity: &EntityDef,
        rows: &Vec<RowFields>,
        update: bool,
    )
        requires
            entity.wf(),
            rows_writable(rows@),
        ensures
            final(out)@ == old(out)@ + insert_sql(old(out)@, *entity, rows@, update),
    {
        let ghost start = out@;
        if rows.len() == 0 {
            assert(out@ =~= start + insert_sql(start, *entity, rows@, update));
            return;
        }
        let context = Context::new(Fragment::SqlInsertInto, entity.qualified_columns());
        self.write_insert_head(&context, out, entity, rows);
        let ghost body_start = out@;
        let single = rows.len() == 1;
        let values_context = Context { fragment: Fragment::SqlInsertIntoValues, ..context };
        self.write_insert_rows(&values_context, out, &entity.columns, rows, single);
        if update {
            let positions = upsert_columns(&entity.columns, &rows[0], single);
            self.write_insert_update_fragment(&values_context, out, entity, &positions);
        }
        push_char(out, ';');
        proof {
            let body = rows_sql(entity.columns@, rows@, single) + (if update {
                upsert_sql(
                    *entity,
                    upsert_positions(
                        entity.columns@,
                        field_names(rows@[0]@),
                        single,
                        entity.columns@.len() as int,
                    ),
                )
            } else {
                Seq::empty()
            }) + seq![';'];
            assert(out@ =~= body_start + body);
            vstd::seq_lib::lemma_concat_associative(start, insert_head(start, *entity, rows@), body);
        }
    }
}

} // verus!
