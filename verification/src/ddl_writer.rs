//! Rendering of schema statements: creating and dropping schemas and tables,
//! column definitions, constraints and column comments, and transactions.
use vstd::prelude::*;
use vstd::string::StrSliceExecFns;
use vstd::string::StringExecFns;
use crate::column::{Action, ColumnDef, PrimaryKeyType};
use crate::context::{Context, Fragment};
use crate::entity::EntityDef;
use crate::expression_writer::{expr_sql, expr_writable};
use crate::sql_writer::{
    GenericSqlWriter, column_ref_sql, quoted_identifier, string_literal, table_ref_sql, type_text,
};
use crate::table_ref::ColumnRef;
use crate::text::push_char;

verus! {

/// The SQL type that the generic dialect's override gives (the first entry
/// with an empty dialect name), empty when there is none.
pub open spec fn overridden_type(ct: Seq<(&'static str, &'static str)>) -> Seq<char>
    decreases ct.len(),
{
    if ct.len() == 0 {
        Seq::empty()
    } else if ct[0].0@.len() == 0 {
        ct[0].1@
    } else {
        overridden_type(ct.drop_first())
    }
}

/// The SQL type of a column: its override when that is not empty, else the
/// type of its value prototype.
pub open spec fn column_type_sql(c: ColumnDef) -> Seq<char> {
    let o = overridden_type(c.column_type@);
    if o.len() > 0 {
        o
    } else {
        type_text(c.value)
    }
}

/// The keywords of a referential action.
pub open spec fn action_sql(a: Action) -> Seq<char> {
    match a {
        Action::NoAction => "NO ACTION"@,
        Action::Restrict => "RESTRICT"@,
        Action::Cascade => "CASCADE"@,
        Action::SetNull => "SET NULL"@,
        Action::SetDefault => "SET DEFAULT"@,
    }
}

/// The table a foreign key points to: its quoted schema (when not empty), a
/// dot and its quoted name.
pub open spec fn referenced_table_sql(r: ColumnRef) -> Seq<char> {
    (if r.schema@.len() != 0 {
        quoted_identifier(r.schema@) + seq!['.']
    } else {
        Seq::empty()
    }) + quoted_identifier(r.table@)
}

/// The `REFERENCES` clause of a column, with its actions.
pub open spec fn references_sql(context: Context, c: ColumnDef) -> Seq<char> {
    match c.references {
        Some(r) => " REFERENCES "@ + referenced_table_sql(r) + seq!['('] + column_ref_sql(
            context.qualify_columns,
            r,
        ) + seq![')'] + (match c.on_delete {
            Some(a) => " ON DELETE "@ + action_sql(a),
            None => Seq::empty(),
        }) + (match c.on_update {
            Some(a) => " ON UPDATE "@ + action_sql(a),
            None => Seq::empty(),
        }),
        None => Seq::empty(),
    }
}

/// Whether the column's default expression can be written.
pub open spec fn column_writable(c: ColumnDef) -> bool {
    match c.default {
        Some(e) => expr_writable(e),
        None => true,
    }
}

/// Whether every column's default expression can be written.
pub open spec fn columns_writable(cols: Seq<ColumnDef>) -> bool {
    forall|i: int| 0 <= i < cols.len() ==> #[trigger] column_writable(cols[i])
}

/// The constraints of a column: `NOT NULL` (unless nullable or part of the
/// primary key), its default, `PRIMARY KEY` (when it alone is the key) and
/// `UNIQUE` (unless it alone is the key).
pub open spec fn constraints_sql(context: Context, c: ColumnDef) -> Seq<char> {
    (if !c.nullable && c.primary_key == PrimaryKeyType::NotPrimaryKey {
        " NOT NULL"@
    } else {
        Seq::empty()
    }) + (match c.default {
        Some(e) => " DEFAULT "@ + expr_sql(context, e),
        None => Seq::empty(),
    }) + (if c.primary_key == PrimaryKeyType::PrimaryKey {
        " PRIMARY KEY"@
    } else {
        Seq::empty()
    }) + (if c.unique && c.primary_key != PrimaryKeyType::PrimaryKey {
        " UNIQUE"@
    } else {
        Seq::empty()
    })
}

/// A column in `CREATE TABLE`: its quoted name, its type, its constraints
/// and its foreign key.
pub open spec fn column_fragment_sql(context: Context, c: ColumnDef) -> Seq<char> {
    quoted_identifier(c.column_ref.name@) + seq![' '] + column_type_sql(c) + constraints_sql(
        context,
        c,
    ) + references_sql(context, c)
}

/// Quoted identifiers joined by `sep`.
pub open spec fn quoted_names(names: Seq<Seq<char>>, sep: Seq<char>) -> Seq<char>
    decreases names.len(),
{
    if names.len() == 0 {
        Seq::empty()
    } else {
        quoted_names(names.drop_last(), sep) + (if names.len() >= 2 {
            sep
        } else {
            Seq::empty()
        }) + quoted_identifier(names.last())
    }
}

/// The names of the columns at the given positions.
pub open spec fn key_names(e: EntityDef, key: Seq<usize>) -> Seq<Seq<char>> {
    key.map_values(|i: usize| e.columns@[i as int].column_ref.name@)
}

/// The column fragments joined by `,` and a newline.
pub open spec fn columns_sql(context: Context, cols: Seq<ColumnDef>) -> Seq<char>
    decreases cols.len(),
{
    if cols.len() == 0 {
        Seq::empty()
    } else {
        columns_sql(context, cols.drop_last()) + (if cols.len() >= 2 {
            ",\n"@
        } else {
            Seq::empty()
        }) + column_fragment_sql(context, cols.last())
    }
}

/// A `UNIQUE (..)` clause for each constraint of more than one column.
pub open spec fn uniques_sql(e: EntityDef, defs: Seq<Vec<usize>>) -> Seq<char>
    decreases defs.len(),
{
    if defs.len() == 0 {
        Seq::empty()
    } else {
        uniques_sql(e, defs.drop_last()) + (if defs.last()@.len() > 1 {
            ",\nUNIQUE ("@ + quoted_names(key_names(e, defs.last()@), ", "@) + seq![')']
        } else {
            Seq::empty()
        })
    }
}

/// A `COMMENT ON COLUMN` statement for each column that has a comment.
pub open spec fn comments_sql(cols: Seq<ColumnDef>) -> Seq<char>
    decreases cols.len(),
{
    if cols.len() == 0 {
        Seq::empty()
    } else {
        comments_sql(cols.drop_last()) + (if cols.last().comment@.len() > 0 {
            "\nCOMMENT ON COLUMN "@ + column_ref_sql(true, cols.last().column_ref) + " IS "@
                + string_literal(Fragment::SqlCommentOnColumn, cols.last().comment@) + seq![';']
        } else {
            Seq::empty()
        })
    }
}

/// A newline when the output already holds text.
pub open spec fn statement_break(prev: Seq<char>) -> Seq<char> {
    if prev.len() > 0 {
        seq!['\n']
    } else {
        Seq::empty()
    }
}

/// The context a statement about an entity starts in.
pub open spec fn entity_context(fragment: Fragment) -> Context {
    Context { counter: 0, fragment, qualify_columns: false }
}

/// The start of `CREATE TABLE`: the table and the opening parenthesis.
pub open spec fn create_table_head(prev: Seq<char>, e: EntityDef, if_not_exists: bool) -> Seq<
    char,
> {
    statement_break(prev) + "CREATE TABLE "@ + (if if_not_exists {
        "IF NOT EXISTS "@
    } else {
        Seq::empty()
    }) + table_ref_sql(Fragment::SqlCreateTable, e.table) + " (\n"@
}

/// The composite primary key clause, when the key has more than one column.
pub open spec fn primary_key_clause(e: EntityDef) -> Seq<char> {
    if e.primary_key@.len() > 1 {
        ",\nPRIMARY KEY ("@ + quoted_names(key_names(e, e.primary_key@), ", "@) + seq![')']
    } else {
        Seq::empty()
    }
}

/// The rest of `CREATE TABLE`: the columns, the composite primary key, the
/// unique constraints of more than one column, then the column comments.
pub open spec fn create_table_body(e: EntityDef) -> Seq<char> {
    columns_sql(entity_context(Fragment::SqlCreateTable), e.columns@) + primary_key_clause(e)
        + uniques_sql(e, e.unique_defs@) + ");"@ + comments_sql(e.columns@)
}

/// `CREATE TABLE` for the entity.
pub open spec fn create_table_sql(prev: Seq<char>, e: EntityDef, if_not_exists: bool) -> Seq<
    char,
> {
    create_table_head(prev, e, if_not_exists) + create_table_body(e)
}

/// `CREATE SCHEMA` for the entity's schema.
pub open spec fn create_schema_sql(prev: Seq<char>, e: EntityDef, if_not_exists: bool) -> Seq<
    char,
> {
    statement_break(prev) + "CREATE SCHEMA "@ + (if if_not_exists {
        "IF NOT EXISTS "@
    } else {
        Seq::empty()
    }) + quoted_identifier(e.table.schema@) + seq![';']
}

/// `DROP SCHEMA` for the entity's schema.
pub open spec fn drop_schema_sql(prev: Seq<char>, e: EntityDef, if_exists: bool) -> Seq<char> {
    statement_break(prev) + "DROP SCHEMA "@ + (if if_exists {
        "IF EXISTS "@
    } else {
        Seq::empty()
    }) + quoted_identifier(e.table.schema@) + seq![';']
}

/// `DROP TABLE` for the entity's table.
pub open spec fn drop_table_sql(prev: Seq<char>, e: EntityDef, if_exists: bool) -> Seq<char> {
    statement_break(prev) + "DROP TABLE "@ + (if if_exists {
        "IF EXISTS "@
    } else {
        Seq::empty()
    }) + table_ref_sql(Fragment::SqlDropTable, e.table) + seq![';']
}

/// The generic dialect's override among `ct`, empty when there is none.
fn generic_override(ct: &Vec<(&'static str, &'static str)>) -> (r: &'static str)
    ensures
        r@ == overridden_type(ct@),
{
    let mut i: usize = 0;
    assert(ct@.skip(0) =~= ct@);
    while i < ct.len()
        invariant
            i <= ct@.len(),
            overridden_type(ct@) == overridden_type(ct@.skip(i as int)),
        decreases ct@.len() - i,
    {
        assert(ct@.skip(i as int)[0] == ct@[i as int]);
        if ct[i].0.is_empty() {
            return ct[i].1;
        }
        assert(ct@.skip(i as int).drop_first() =~= ct@.skip(i + 1));
        i = i + 1;
    }
    proof {
        reveal_strlit("");
    }
    ""
}

impl GenericSqlWriter {
    /// Appends the SQL type that the column's override gives in this dialect.
    pub fn write_column_overridden_type(
        &self,
        context: &Context,
        out: &mut String,
        types: &Vec<(&'static str, &'static str)>,
    )
        ensures
            final(out)@ == old(out)@ + overridden_type(types@),
    {
        let t = generic_override(types);
        out.append(t);
    }

    /// Appends the keywords of a referential action.
    pub fn write_create_table_references_action(
        &self,
        context: &Context,
        out: &mut String,
        action: &Action,
    )
        ensures
            final(out)@ == old(out)@ + action_sql(*action),
    {
        out.append(
            match action {
                Action::NoAction => "NO ACTION",
                Action::Restrict => "RESTRICT",
                Action::Cascade => "CASCADE",
                Action::SetNull => "SET NULL",
                Action::SetDefault => "SET DEFAULT",
            },
        );
    }

    /// Appends a column comment inside its definition; the generic dialect
    /// writes comments as separate statements instead.
    pub fn write_column_comment_inline(&self, context: &Context, out: &mut String, column: &ColumnDef)
        ensures
            final(out)@ == old(out)@,
    {
    }

    /// Appends one column definition of `CREATE TABLE`.
    #[verifier::rlimit(40)]
    pub fn write_create_table_column_fragment(
        &self,
        context: &Context,
        out: &mut String,
        column: &ColumnDef,
    )
        requires
            column_writable(*column),
        ensures
            final(out)@ == old(out)@ + column_fragment_sql(*context, *column),
    {
        let ghost start = out@;
        self.write_identifier_quoted(context, out, column.name());
        push_char(out, ' ');
        let overridden = generic_override(&column.column_type);
        if column.column_type.len() > 0 {
            self.write_column_overridden_type(context, out, &column.column_type);
        }
        if column.column_type.len() == 0 || overridden.is_empty() {
            self.write_column_type(context, out, &column.value);
        }
        let ghost typed = out@;
        assert(typed =~= start + quoted_identifier(column.column_ref.name@) + seq![' ']
            + column_type_sql(*column));
        self.write_column_constraints(context, out, column);
        self.write_column_references(context, out, column);
        if !column.comment.is_empty() {
            self.write_column_comment_inline(context, out, column);
        }
        assert(out@ =~= start + column_fragment_sql(*context, *column));
    }

    fn write_column_constraints(&self, context: &Context, out: &mut String, column: &ColumnDef)
        requires
            column_writable(*column),
        ensures
            final(out)@ == old(out)@ + constraints_sql(*context, *column),
    {
        let ghost start = out@;
        if !column.nullable && column.primary_key == PrimaryKeyType::NotPrimaryKey {
            out.append(" NOT NULL");
        }
        if let Some(default) = &column.default {
            out.append(" DEFAULT ");
            self.write_expression(context, out, default);
        }
        if column.primary_key == PrimaryKeyType::PrimaryKey {
            out.append(" PRIMARY KEY");
        }
        if column.unique && column.primary_key != PrimaryKeyType::PrimaryKey {
            out.append(" UNIQUE");
        }
        assert(out@ =~= start + constraints_sql(*context, *column));
    }

    #[verifier::rlimit(40)]
    fn write_column_references(&self, context: &Context, out: &mut String, column: &ColumnDef)
        ensures
            final(out)@ == old(out)@ + references_sql(*context, *column),
    {
        let ghost start = out@;
        if let Some(references) = &column.references {
            out.append(" REFERENCES ");
            let table = references.table();
            self.write_table_ref(context, out, &table);
            push_char(out, '(');
            self.write_column_ref(context, out, references);
            push_char(out, ')');
            let ghost mid = out@;
            assert(mid =~= start + " REFERENCES "@ + referenced_table_sql(*references) + seq!['(']
                + column_ref_sql(context.qualify_columns, *references) + seq![')']);
            if let Some(on_delete) = &column.on_delete {
                out.append(" ON DELETE ");
                self.write_create_table_references_action(context, out, on_delete);
            }
            if let Some(on_update) = &column.on_update {
                out.append(" ON UPDATE ");
                self.write_create_table_references_action(context, out, on_update);
            }
        }
        assert(out@ =~= start + references_sql(*context, *column));
    }
}


impl GenericSqlWriter {
    /// Appends the quoted names of the columns at the positions in `key`,
    /// joined by `sep`.
    pub(crate) fn write_key_names(
        &self,
        context: &Context,
        out: &mut String,
        entity: &EntityDef,
        key: &Vec<usize>,
        sep: &str,
    )
        requires
            forall|i: int| 0 <= i < key@.len() ==> #[trigger] key@[i] < entity.columns@.len(),
        ensures
            final(out)@ == old(out)@ + quoted_names(key_names(*entity, key@), sep@),
    {
        let ghost start = out@;
        let mut i: usize = 0;
        assert(key_names(*entity, key@.take(0)) =~= Seq::<Seq<char>>::empty());
        while i < key.len()
            invariant
                i <= key@.len(),
                forall|j: int| 0 <= j < key@.len() ==> #[trigger] key@[j] < entity.columns@.len(),
                out@ == start + quoted_names(key_names(*entity, key@.take(i as int)), sep@),
            decreases key@.len() - i,
        {
            let ghost names = key_names(*entity, key@.take(i + 1));
            assert(names.drop_last() =~= key_names(*entity, key@.take(i as int)));
            assert(names.last() == entity.columns@[key@[i as int] as int].column_ref.name@);
            if i > 0 {
                out.append(sep);
            }
            self.write_identifier_quoted(context, out, entity.columns[key[i]].name());
            i = i + 1;
        }
        assert(key@.take(key@.len() as int) =~= key@);
    }

    /// Appends the column definitions, joined by `,` and a newline.
    fn write_column_fragments(&self, context: &Context, out: &mut String, columns: &Vec<ColumnDef>)
        requires
            columns_writable(columns@),
        ensures
            final(out)@ == old(out)@ + columns_sql(*context, columns@),
    {
        let ghost start = out@;
        let mut i: usize = 0;
        while i < columns.len()
            invariant
                i <= columns@.len(),
                columns_writable(columns@),
                out@ == start + columns_sql(*context, columns@.take(i as int)),
            decreases columns@.len() - i,
        {
            assert(columns@.take(i + 1).drop_last() =~= columns@.take(i as int));
            assert(column_writable(columns@[i as int]));
            if i > 0 {
                out.append(",\n");
            }
            self.write_create_table_column_fragment(context, out, &columns[i]);
            i = i + 1;
        }
        assert(columns@.take(columns@.len() as int) =~= columns@);
    }

    /// Appends a `UNIQUE (..)` clause for each constraint of more than one column.
    fn write_unique_constraints(&self, context: &Context, out: &mut String, entity: &EntityDef)
        requires
            entity.wf(),
        ensures
            final(out)@ == old(out)@ + uniques_sql(*entity, entity.unique_defs@),
    {
        let ghost start = out@;
        let mut u: usize = 0;
        while u < entity.unique_defs.len()
            invariant
                u <= entity.unique_defs@.len(),
                entity.wf(),
                out@ == start + uniques_sql(*entity, entity.unique_defs@.take(u as int)),
            decreases entity.unique_defs@.len() - u,
        {
            assert(entity.unique_defs@.take(u + 1).drop_last() =~= entity.unique_defs@.take(
                u as int,
            ));
            let unique = &entity.unique_defs[u];
            assert forall|i: int| 0 <= i < unique@.len() implies #[trigger] unique@[i]
                < entity.columns@.len() by {
                assert(entity.unique_defs@[u as int]@[i] < entity.columns@.len());
            }
            if unique.len() > 1 {
                out.append(",\nUNIQUE (");
                self.write_key_names(context, out, entity, unique, ", ");
                push_char(out, ')');
            }
            u = u + 1;
        }
        assert(entity.unique_defs@.take(entity.unique_defs@.len() as int) =~= entity.unique_defs@);
    }

    /// Appends a `COMMENT ON COLUMN` statement for each column that has a comment.
    pub fn write_column_comments_statements(
        &self,
        context: &Context,
        out: &mut String,
        columns: &Vec<ColumnDef>,
    )
        ensures
            final(out)@ == old(out)@ + comments_sql(columns@),
    {
        let ghost start = out@;
        let comment_context = Context {
            fragment: Fragment::SqlCommentOnColumn,
            qualify_columns: true,
            ..*context
        };
        let mut i: usize = 0;
        while i < columns.len()
            invariant
                i <= columns@.len(),
                comment_context.fragment == Fragment::SqlCommentOnColumn,
                comment_context.qualify_columns,
                out@ == start + comments_sql(columns@.take(i as int)),
            decreases columns@.len() - i,
        {
            assert(columns@.take(i + 1).drop_last() =~= columns@.take(i as int));
            let column = &columns[i];
            if !column.comment.is_empty() {
                out.append("\nCOMMENT ON COLUMN ");
                self.write_column_ref(&comment_context, out, &column.column_ref);
                out.append(" IS ");
                self.write_value_string(&comment_context, out, column.comment);
                push_char(out, ';');
            }
            i = i + 1;
        }
        assert(columns@.take(columns@.len() as int) =~= columns@);
    }

    /// Appends `CREATE TABLE` for the entity, with its columns, a composite
    /// primary key, its unique constraints and its column comments.
    pub fn write_create_table(&self, out: &mut String, entity: &EntityDef, if_not_exists: bool)
        requires
            entity.wf(),
            columns_writable(entity.columns@),
        ensures
            final(out)@ == old(out)@ + create_table_sql(old(out)@, *entity, if_not_exists),
    {
        let ghost start = out@;
        let context = Context::new(Fragment::SqlCreateTable, entity.qualified_columns());
        if !out.as_str().is_empty() {
            push_char(out, '\n');
        }
        out.append("CREATE TABLE ");
        if if_not_exists {
            out.append("IF NOT EXISTS ");
        }
        self.write_table_ref(&context, out, &entity.table);
        out.append(" (\n");
        let ghost head = out@;
        assert(head =~= start + create_table_head(start, *entity, if_not_exists));
        self.write_create_table_body(&context, out, entity);
        proof {
            vstd::seq_lib::lemma_concat_associative(
                start,
                create_table_head(start, *entity, if_not_exists),
                create_table_body(*entity),
            );
        }
    }

    fn write_create_table_body(&self, context: &Context, out: &mut String, entity: &EntityDef)
        requires
            entity.wf(),
            columns_writable(entity.columns@),
            *context == entity_context(Fragment::SqlCreateTable),
        ensures
            final(out)@ == old(out)@ + create_table_body(*entity),
    {
        let ghost start = out@;
        self.write_column_fragments(context, out, &entity.columns);
        let ghost pk_start = out@;
        if entity.primary_key.len() > 1 {
            out.append(",\nPRIMARY KEY (");
            self.write_key_names(context, out, entity, &entity.primary_key, ", ");
            push_char(out, ')');
        }
        assert(out@ =~= pk_start + primary_key_clause(*entity));
        self.write_unique_constraints(context, out, entity);
        out.append(");");
        self.write_column_comments_statements(context, out, &entity.columns);
        proof {
            let c = columns_sql(*context, entity.columns@);
            let p = primary_key_clause(*entity);
            let u = uniques_sql(*entity, entity.unique_defs@);
            let t = ");"@;
            let m = comments_sql(entity.columns@);
            vstd::seq_lib::lemma_concat_associative(start, c, p);
            vstd::seq_lib::lemma_concat_associative(start, c + p, u);
            vstd::seq_lib::lemma_concat_associative(start, c + p + u, t);
            vstd::seq_lib::lemma_concat_associative(start, c + p + u + t, m);
        }
    }

    /// Appends `CREATE SCHEMA` for the entity's schema.
    pub fn write_create_schema(&self, out: &mut String, entity: &EntityDef, if_not_exists: bool)
        ensures
            final(out)@ == old(out)@ + create_schema_sql(old(out)@, *entity, if_not_exists),
    {
        let ghost start = out@;
        if !out.as_str().is_empty() {
            push_char(out, '\n');
        }
        out.append("CREATE SCHEMA ");
        let context = Context::new(Fragment::SqlCreateSchema, entity.qualified_columns());
        if if_not_exists {
            out.append("IF NOT EXISTS ");
        }
        self.write_identifier_quoted(&context, out, entity.table.schema);
        push_char(out, ';');
        assert(out@ =~= start + create_schema_sql(start, *entity, if_not_exists));
    }

    /// Appends `DROP SCHEMA` for the entity's schema.
    pub fn write_drop_schema(&self, out: &mut String, entity: &EntityDef, if_exists: bool)
        ensures
            final(out)@ == old(out)@ + drop_schema_sql(old(out)@, *entity, if_exists),
    {
        let ghost start = out@;
        if !out.as_str().is_empty() {
            push_char(out, '\n');
        }
        out.append("DROP SCHEMA ");
        let context = Context::new(Fragment::SqlDropSchema, entity.qualified_columns());
        if if_exists {
            out.append("IF EXISTS ");
        }
        self.write_identifier_quoted(&context, out, entity.table.schema);
        push_char(out, ';');
        assert(out@ =~= start + drop_schema_sql(start, *entity, if_exists));
    }

    /// Appends `DROP TABLE` for the entity's table.
    pub fn write_drop_table(&self, out: &mut String, entity: &EntityDef, if_exists: bool)
        ensures
            final(out)@ == old(out)@ + drop_table_sql(old(out)@, *entity, if_exists),
    {
        let ghost start = out@;
        if !out.as_str().is_empty() {
            push_char(out, '\n');
        }
        out.append("DROP TABLE ");
        let context = Context::new(Fragment::SqlDropTable, entity.qualified_columns());
        if if_exists {
            out.append("IF EXISTS ");
        }
        self.write_table_ref(&context, out, &entity.table);
        push_char(out, ';');
        assert(out@ =~= start + drop_table_sql(start, *entity, if_exists));
    }

    /// Appends `BEGIN;`.
    pub fn write_transaction_begin(&self, out: &mut String)
        ensures
            final(out)@ == old(out)@ + "BEGIN;"@,
    {
        out.append("BEGIN;");
    }

    /// Appends `COMMIT;`.
    pub fn write_transaction_commit(&self, out: &mut String)
        ensures
            final(out)@ == old(out)@ + "COMMIT;"@,
    {
        out.append("COMMIT;");
    }

    /// Appends `ROLLBACK;`.
    pub fn write_transaction_rollback(&self, out: &mut String)
        ensures
            final(out)@ == old(out)@ + "ROLLBACK;"@,
    {
        out.append("ROLLBACK;");
    }
}

/// Each referential action is written under its own keyword: a column that
/// references another has a clause ending in ` ON UPDATE ` and its update
/// action when it has one, else in ` ON DELETE ` and its delete action when
/// it has that, else in the referenced column in parentheses.
pub proof fn law_reference_actions_keywords(context: Context, c: ColumnDef, r: ColumnRef)
    requires
        c.references == Some(r),
    ensures
        c.on_update matches Some(a) ==> (" ON UPDATE "@ + action_sql(a)).is_suffix_of(
            references_sql(context, c),
        ),
        c.on_update is None ==> (c.on_delete matches Some(d) ==> (" ON DELETE "@ + action_sql(
            d,
        )).is_suffix_of(references_sql(context, c))),
        c.on_update is None && c.on_delete is None ==> (seq!['('] + column_ref_sql(
            context.qualify_columns,
            r,
        ) + seq![')']).is_suffix_of(references_sql(context, c)),
{
    let head = " REFERENCES "@ + referenced_table_sql(r);
    let col = seq!['('] + column_ref_sql(context.qualify_columns, r) + seq![')'];
    let del = match c.on_delete {
        Some(a) => " ON DELETE "@ + action_sql(a),
        None => Seq::empty(),
    };
    let upd = match c.on_update {
        Some(a) => " ON UPDATE "@ + action_sql(a),
        None => Seq::empty(),
    };
    let whole = references_sql(context, c);
    assert(whole =~= head + col + del + upd);
    if c.on_update is Some {
        assert(whole.skip(whole.len() - upd.len()) =~= upd);
    } else if c.on_delete is Some {
        assert(whole =~= head + col + del);
        assert(whole.skip(whole.len() - del.len()) =~= del);
    } else {
        assert(whole =~= head + col);
        assert(whole.skip(whole.len() - col.len()) =~= col);
    }
}

} // verus!
