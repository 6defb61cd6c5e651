//! Rendering of queries: data sets and joins, `SELECT` and `DELETE`.
use vstd::prelude::*;
use vstd::string::StrSliceExecFns;
use vstd::string::StringExecFns;
use crate::context::{Context, Fragment};
use crate::ddl_writer::{entity_context, statement_break};
use crate::entity::{DataSet, EntityDef, Join, spec_qualified_columns};
use crate::expression::{Expression, JoinType};
use crate::expression_writer::{expr_sql, expr_writable, in_fragment};
use crate::sql_writer::{GenericSqlWriter, table_ref_sql};
use crate::text::{int_text, push_char, write_uint};
use crate::util::{lemma_separated_push, separated};

verus! {

/// The keywords of a join.
pub open spec fn join_type_sql(j: JoinType) -> Seq<char> {
    match j {
        JoinType::Default => "JOIN"@,
        JoinType::Inner => "INNER JOIN"@,
        JoinType::Outer => "OUTER JOIN"@,
        JoinType::Left => "LEFT JOIN"@,
        JoinType::Right => "RIGHT JOIN"@,
        JoinType::Cross => "CROSS"@,
        JoinType::Natural => "NATURAL JOIN"@,
    }
}

/// Whether every join condition inside the data set can be written.
pub open spec fn data_set_writable(d: DataSet) -> bool
    decreases d, 1int,
{
    match d {
        DataSet::Table(_) => true,
        DataSet::Join(j) => join_writable(*j),
    }
}

pub open spec fn join_writable(j: Join) -> bool
    decreases j, 0int,
{
    data_set_writable(j.lhs) && data_set_writable(j.rhs) && match j.on {
        Some(e) => expr_writable(e),
        None => true,
    }
}

/// The text of a data set in a `FROM` clause.
pub open spec fn data_set_sql(context: Context, d: DataSet) -> Seq<char>
    decreases d, 1int,
{
    match d {
        DataSet::Table(t) => table_ref_sql(context.fragment, t),
        DataSet::Join(j) => join_sql(context, *j),
    }
}

/// The context inside a join: the join fragment, columns qualified.
pub open spec fn join_context(context: Context) -> Context {
    Context { fragment: Fragment::SqlJoin, qualify_columns: true, ..context }
}

/// A join: both sides, the join keywords between them and the condition
/// after `ON` when there is one.
pub open spec fn join_sql(context: Context, j: Join) -> Seq<char>
    decreases j, 0int,
{
    let c = join_context(context);
    data_set_sql(c, j.lhs) + seq![' '] + join_type_sql(j.join) + seq![' '] + data_set_sql(c, j.rhs)
        + match j.on {
        Some(e) => " ON "@ + expr_sql(c, e),
        None => Seq::empty(),
    }
}

/// The texts of the expressions.
pub open spec fn expr_texts(context: Context, s: Seq<Expression>) -> Seq<Seq<char>> {
    s.map_values(|e: Expression| expr_sql(context, e))
}

/// Whether the expression carries a sort direction.
pub open spec fn carries_order() -> spec_fn(Expression) -> bool {
    |e: Expression| e is Ordered
}

/// The expressions that carry a sort direction, in their order.
pub open spec fn ordered_columns(s: Seq<Expression>) -> Seq<Expression> {
    s.filter(carries_order())
}

/// Whether every expression can be written.
pub open spec fn all_writable(s: Seq<Expression>) -> bool {
    forall|i: int| 0 <= i < s.len() ==> #[trigger] expr_writable(s[i])
}

/// The context a query over `from` starts in.
pub open spec fn select_context(from: DataSet) -> Context {
    Context { counter: 0, fragment: Fragment::SqlSelect, qualify_columns: spec_qualified_columns(from) }
}

/// The `ORDER BY` clause: the columns that carry a sort direction, when
/// there are any.
pub open spec fn order_by_sql(context: Context, columns: Seq<Expression>) -> Seq<char> {
    if ordered_columns(columns).len() > 0 {
        "\nORDER BY "@ + separated(
            expr_texts(in_fragment(context, Fragment::SqlSelectOrderBy), ordered_columns(columns)),
            ", "@,
        )
    } else {
        Seq::empty()
    }
}

/// The `LIMIT` clause, when there is a limit.
pub open spec fn limit_sql(limit: Option<u32>) -> Seq<char> {
    match limit {
        Some(l) => "\nLIMIT "@ + int_text(l as int),
        None => Seq::empty(),
    }
}

/// The start of `SELECT`: the columns, the data set and the condition.
pub open spec fn select_head(
    prev: Seq<char>,
    columns: Seq<Expression>,
    from: DataSet,
    condition: Expression,
) -> Seq<char> {
    let c = select_context(from);
    statement_break(prev) + "SELECT "@ + separated(expr_texts(c, columns), ", "@) + "\nFROM "@
        + data_set_sql(in_fragment(c, Fragment::SqlSelectFrom), from) + "\nWHERE "@ + expr_sql(
        in_fragment(c, Fragment::SqlSelectWhere),
        condition,
    )
}

/// `SELECT`: the columns, the data set, the condition, the columns that carry
/// a sort direction and the limit.
pub open spec fn select_sql(
    prev: Seq<char>,
    columns: Seq<Expression>,
    from: DataSet,
    condition: Expression,
    limit: Option<u32>,
) -> Seq<char> {
    select_head(prev, columns, from, condition) + (order_by_sql(select_context(from), columns)
        + limit_sql(limit) + seq![';'])
}

/// `DELETE FROM` the entity's table with a condition.
pub open spec fn delete_sql(prev: Seq<char>, e: EntityDef, condition: Expression) -> Seq<char> {
    statement_break(prev) + "DELETE FROM "@ + table_ref_sql(Fragment::SqlDeleteFrom, e.table)
        + "\nWHERE "@ + expr_sql(entity_context(Fragment::SqlDeleteFromWhere), condition) + seq![
        ';',
    ]
}

impl GenericSqlWriter {
    /// Appends the keywords of a join.
    pub fn write_join_type(&self, context: &Context, out: &mut String, join_type: &JoinType)
        ensures
            final(out)@ == old(out)@ + join_type_sql(*join_type),
    {
        out.append(
            match join_type {
                JoinType::Default => "JOIN",
                JoinType::Inner => "INNER JOIN",
                JoinType::Outer => "OUTER JOIN",
                JoinType::Left => "LEFT JOIN",
                JoinType::Right => "RIGHT JOIN",
                JoinType::Cross => "CROSS",
                JoinType::Natural => "NATURAL JOIN",
            },
        );
    }

    /// Appends a data set: a table reference or a join.
    pub fn write_data_set(&self, context: &Context, out: &mut String, value: &DataSet)
        requires
            data_set_writable(*value),
        ensures
            final(out)@ == old(out)@ + data_set_sql(*context, *value),
        decreases value, 1int,
    {
        match value {
            DataSet::Table(t) => self.write_table_ref(context, out, t),
            DataSet::Join(j) => self.write_join(context, out, j),
        }
    }

    /// Appends a join; both sides and the condition are written in the join
    /// fragment with qualified columns.
    pub fn write_join(&self, context: &Context, out: &mut String, join: &Join)
        requires
            join_writable(*join),
        ensures
            final(out)@ == old(out)@ + join_sql(*context, *join),
        decreases join, 0int,
    {
        let ghost start = out@;
        let inner = Context { fragment: Fragment::SqlJoin, qualify_columns: true, ..*context };
        self.write_data_set(&inner, out, &join.lhs);
        push_char(out, ' ');
        self.write_join_type(&inner, out, &join.join);
        push_char(out, ' ');
        self.write_data_set(&inner, out, &join.rhs);
        if let Some(on) = &join.on {
            out.append(" ON ");
            self.write_expression(&inner, out, on);
        }
        assert(out@ =~= start + join_sql(*context, *join));
    }

    /// Appends the expressions, each after `separator` when the one before it
    /// wrote some text.
    pub fn write_expression_list(
        &self,
        context: &Context,
        out: &mut String,
        values: &Vec<Expression>,
        separator: &str,
    )
        requires
            all_writable(values@),
        ensures
            final(out)@ == old(out)@ + separated(expr_texts(*context, values@), separator@),
    {
        let ghost start = out@;
        let mut previous_wrote = false;
        let mut i: usize = 0;
        assert(expr_texts(*context, values@.take(0)) =~= Seq::<Seq<char>>::empty());
        while i < values.len()
            invariant
                i <= values@.len(),
                all_writable(values@),
                out@ == start + separated(expr_texts(*context, values@.take(i as int)), separator@),
                previous_wrote == (i > 0 && expr_sql(*context, values@[i - 1]).len() > 0),
            decreases values@.len() - i,
        {
            let ghost before = expr_texts(*context, values@.take(i as int));
            proof {
                lemma_separated_push(before, expr_sql(*context, values@[i as int]), separator@);
                assert(expr_texts(*context, values@.take(i + 1)) =~= before.push(
                    expr_sql(*context, values@[i as int]),
                ));
                assert(expr_writable(values@[i as int]));
            }
            let mut piece = String::new();
            self.write_expression(context, &mut piece, &values[i]);
            if previous_wrote {
                out.append(separator);
            }
            previous_wrote = !piece.as_str().is_empty();
            out.append(piece.as_str());
            i = i + 1;
        }
        assert(values@.take(values@.len() as int) =~= values@);
    }
}


/// Whether any of the columns carries a sort direction.
fn any_ordered(columns: &Vec<Expression>) -> (r: bool)
    ensures
        r == (ordered_columns(columns@).len() > 0),
{
    let mut found = false;
    let mut i: usize = 0;
    assert(columns@.take(0).filter(carries_order()) =~= Seq::<Expression>::empty()) by {
        reveal(Seq::filter);
    }
    while i < columns.len()
        invariant
            i <= columns@.len(),
            found == (ordered_columns(columns@.take(i as int)).len() > 0),
        decreases columns@.len() - i,
    {
        proof {
            assert(columns@.take(i + 1) =~= columns@.take(i as int).push(columns@[i as int]));
            columns@.take(i as int).lemma_filter_push(columns@[i as int], carries_order());
        }
        found = found || columns[i].is_ordered();
        i = i + 1;
    }
    assert(columns@.take(columns@.len() as int) =~= columns@);
    found
}

impl GenericSqlWriter {
    /// Appends the columns that carry a sort direction, each after `separator`
    /// when the one before it wrote some text.
    fn write_ordered_columns(
        &self,
        context: &Context,
        out: &mut String,
        columns: &Vec<Expression>,
        separator: &str,
    )
        requires
            all_writable(columns@),
        ensures
            final(out)@ == old(out)@ + separated(
                expr_texts(*context, ordered_columns(columns@)),
                separator@,
            ),
    {
        let ghost start = out@;
        let mut previous_wrote = false;
        let ghost mut count: int = 0;
        let mut i: usize = 0;
        assert(columns@.take(0).filter(carries_order()) =~= Seq::<Expression>::empty()) by {
            reveal(Seq::filter);
        }
        assert(expr_texts(*context, Seq::<Expression>::empty()) =~= Seq::<Seq<char>>::empty());
        while i < columns.len()
            invariant
                i <= columns@.len(),
                all_writable(columns@),
                out@ == start + separated(
                    expr_texts(*context, ordered_columns(columns@.take(i as int))),
                    separator@,
                ),
                previous_wrote == (ordered_columns(columns@.take(i as int)).len() > 0 && expr_sql(
                    *context,
                    ordered_columns(columns@.take(i as int)).last(),
                ).len() > 0),
            decreases columns@.len() - i,
        {
            let ghost before = ordered_columns(columns@.take(i as int));
            proof {
                assert(columns@.take(i + 1) =~= columns@.take(i as int).push(columns@[i as int]));
                columns@.take(i as int).lemma_filter_push(columns@[i as int], carries_order());
                assert(expr_writable(columns@[i as int]));
            }
            if columns[i].is_ordered() {
                proof {
                    lemma_separated_push(
                        expr_texts(*context, before),
                        expr_sql(*context, columns@[i as int]),
                        separator@,
                    );
                    assert(expr_texts(*context, before.push(columns@[i as int])) =~= expr_texts(
                        *context,
                        before,
                    ).push(expr_sql(*context, columns@[i as int])));
                }
                let mut piece = String::new();
                self.write_expression(context, &mut piece, &columns[i]);
                if previous_wrote {
                    out.append(separator);
                }
                previous_wrote = !piece.as_str().is_empty();
                out.append(piece.as_str());
            }
            i = i + 1;
        }
        assert(columns@.take(columns@.len() as int) =~= columns@);
    }

    /// Appends `SELECT` of the columns from the data set where the condition
    /// holds, ordered by the columns that carry a sort direction and limited
    /// to `limit` rows when there is a limit.
    pub fn write_select(
        &self,
        out: &mut String,
        columns: &Vec<Expression>,
        from: &DataSet,
        condition: &Expression,
        limit: Option<u32>,
    )
        requires
            all_writable(columns@),
            data_set_writable(*from),
            expr_writable(*condition),
        ensures
            final(out)@ == old(out)@ + select_sql(old(out)@, columns@, *from, *condition, limit),
    {
        let ghost start = out@;
        let context = Context::new(Fragment::SqlSelect, from.qualified_columns());
        self.write_select_head(&context, out, columns, from, condition);
        let ghost tail_start = out@;
        let has_order_by = any_ordered(columns);
        if has_order_by {
            out.append("\nORDER BY ");
            let order_context = Context { fragment: Fragment::SqlSelectOrderBy, ..context };
            self.write_ordered_columns(&order_context, out, columns, ", ");
        }
        if let Some(l) = limit {
            out.append("\nLIMIT ");
            write_uint(out, l as u128);
        }
        push_char(out, ';');
        proof {
            let c = select_context(*from);
            let tail = order_by_sql(c, columns@) + limit_sql(limit) + seq![';'];
            assert(out@ =~= tail_start + tail);
            vstd::seq_lib::lemma_concat_associative(
                start,
                select_head(start, columns@, *from, *condition),
                tail,
            );
        }
    }

    fn write_select_head(
        &self,
        context: &Context,
        out: &mut String,
        columns: &Vec<Expression>,
        from: &DataSet,
        condition: &Expression,
    )
        requires
            *context == select_context(*from),
            all_writable(columns@),
            data_set_writable(*from),
            expr_writable(*condition),
        ensures
            final(out)@ == old(out)@ + select_head(old(out)@, columns@, *from, *condition),
    {
        let ghost start = out@;
        if !out.as_str().is_empty() {
            push_char(out, '\n');
        }
        out.append("SELECT ");
        self.write_expression_list(context, out, columns, ", ");
        out.append("\nFROM ");
        let from_context = Context { fragment: Fragment::SqlSelectFrom, ..*context };
        self.write_data_set(&from_context, out, from);
        out.append("\nWHERE ");
        let where_context = Context { fragment: Fragment::SqlSelectWhere, ..*context };
        self.write_expression(&where_context, out, condition);
        assert(out@ =~= start + select_head(start, columns@, *from, *condition));
    }

    /// Appends `DELETE FROM` the entity's table where the condition holds.
    pub fn write_delete(&self, out: &mut String, entity: &EntityDef, condition: &Expression)
        requires
            expr_writable(*condition),
        ensures
            final(out)@ == old(out)@ + delete_sql(old(out)@, *entity, *condition),
    {
        let ghost start = out@;
        if !out.as_str().is_empty() {
            push_char(out, '\n');
        }
        out.append("DELETE FROM ");
        let context = Context::new(Fragment::SqlDeleteFrom, entity.qualified_columns());
        self.write_table_ref(&context, out, &entity.table);
        out.append("\nWHERE ");
        let where_context = Context { fragment: Fragment::SqlDeleteFromWhere, ..context };
        self.write_expression(&where_context, out, condition);
        push_char(out, ';');
        assert(out@ =~= start + delete_sql(start, *entity, *condition));
    }
}

} // verus!
