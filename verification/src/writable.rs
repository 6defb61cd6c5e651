//! Checks that values, expressions, data sets, columns and rows can be
//! written: every interval inside them has a day-and-clock length that fits
//! in an `i128`. The writers require it; these functions tell a caller
//! beforehand.
use vstd::prelude::*;
use crate::column::ColumnDef;
use crate::ddl_writer::{column_writable, columns_writable};
use crate::dml_writer::{all_writable, data_set_writable, join_writable};
use crate::entity::{DataSet, Join};
use crate::expression::{Expression, Operand};
use crate::expression_writer::{expr_writable, exprs_writable, operand_writable, operands_writable};
use crate::insert_writer::{RowFields, rows_writable};
use crate::interval::Interval;
use crate::sql_writer::{entries_writable, fields_writable, value_writable, values_writable};
use crate::value::Value;

verus! {

/// Whether the interval's day-and-clock length in nanoseconds fits in an `i128`.
pub fn interval_length_fits(i: &Interval) -> (r: bool)
    ensures
        r == (i128::MIN <= i.total_nanos() <= i128::MAX),
{
    let days = i.days as i128 * Interval::NANOS_IN_DAY;
    days.checked_add(i.nanos).is_some()
}

/// Whether the value can be written.
pub fn is_value_writable(v: &Value) -> (r: bool)
    ensures
        r == value_writable(*v),
    decreases *v, 1int, 0int,
{
    match v {
        Value::Interval(Some(i)) => interval_length_fits(i),
        Value::Array(Some(x), ..) => are_values_writable(x, x.len()),
        Value::List(Some(x), ..) => are_values_writable(x, x.len()),
        Value::Dict(Some(x), ..) => are_entries_writable(x, x.len()),
        Value::Struct(Some(x)) => are_fields_writable(x, x.len()),
        _ => true,
    }
}

fn are_values_writable(s: &Vec<Value>, n: usize) -> (r: bool)
    requires
        n <= s@.len(),
    ensures
        r == values_writable(s@, n as int),
    decreases s@, 0int, n,
{
    if n == 0 {
        true
    } else {
        are_values_writable(s, n - 1) && is_value_writable(&s[n - 1])
    }
}

fn are_entries_writable(s: &Vec<(Value, Value)>, n: usize) -> (r: bool)
    requires
        n <= s@.len(),
    ensures
        r == entries_writable(s@, n as int),
    decreases s@, 0int, n,
{
    if n == 0 {
        true
    } else {
        are_entries_writable(s, n - 1) && is_value_writable(&s[n - 1].0) && is_value_writable(
            &s[n - 1].1,
        )
    }
}

fn are_fields_writable(s: &Vec<(String, Value)>, n: usize) -> (r: bool)
    requires
        n <= s@.len(),
    ensures
        r == fields_writable(s@, n as int),
    decreases s@, 0int, n,
{
    if n == 0 {
        true
    } else {
        are_fields_writable(s, n - 1) && is_value_writable(&s[n - 1].1)
    }
}

/// Whether the expression can be written.
pub fn is_expr_writable(e: &Expression) -> (r: bool)
    ensures
        r == expr_writable(*e),
    decreases *e, 1int, 0int,
{
    match e {
        Expression::Value(v) => is_value_writable(v),
        Expression::Operand(o) => is_operand_writable(o),
        Expression::Unary(u) => is_expr_writable(&u.arg),
        Expression::Binary(b) => is_expr_writable(&b.lhs) && is_expr_writable(&b.rhs),
        Expression::Ordered(o) => is_expr_writable(&o.expression),
        _ => true,
    }
}

/// Whether the operand can be written.
pub fn is_operand_writable(o: &Operand) -> (r: bool)
    ensures
        r == operand_writable(*o),
    decreases *o, 1int, 0int,
{
    match o {
        Operand::Variable(v) => is_value_writable(v),
        Operand::LitArray(xs) => are_operands_writable(xs, xs.len()),
        Operand::Call(_, args) => are_exprs_writable(args, args.len()),
        _ => true,
    }
}

fn are_operands_writable(s: &Vec<Operand>, n: usize) -> (r: bool)
    requires
        n <= s@.len(),
    ensures
        r == operands_writable(s@, n as int),
    decreases s@, 0int, n,
{
    if n == 0 {
        true
    } else {
        are_operands_writable(s, n - 1) && is_operand_writable(&s[n - 1])
    }
}

fn are_exprs_writable(s: &Vec<Expression>, n: usize) -> (r: bool)
    requires
        n <= s@.len(),
    ensures
        r == exprs_writable(s@, n as int),
    decreases s@, 0int, n,
{
    if n == 0 {
        true
    } else {
        are_exprs_writable(s, n - 1) && is_expr_writable(&s[n - 1])
    }
}

/// Whether every expression of the list can be written.
pub fn are_all_writable(s: &Vec<Expression>) -> (r: bool)
    ensures
        r == all_writable(s@),
{
    let mut i: usize = 0;
    while i < s.len()
        invariant
            i <= s@.len(),
            forall|j: int| 0 <= j < i ==> #[trigger] expr_writable(s@[j]),
        decreases s@.len() - i,
    {
        if !is_expr_writable(&s[i]) {
            return false;
        }
        i = i + 1;
    }
    true
}

/// Whether the data set can be written.
pub fn is_data_set_writable(d: &DataSet) -> (r: bool)
    ensures
        r == data_set_writable(*d),
    decreases *d, 1int,
{
    match d {
        DataSet::Table(_) => true,
        DataSet::Join(j) => is_join_writable(j),
    }
}

fn is_join_writable(j: &Join) -> (r: bool)
    ensures
        r == join_writable(*j),
    decreases *j, 0int,
{
    is_data_set_writable(&j.lhs) && is_data_set_writable(&j.rhs) && match &j.on {
        Some(e) => is_expr_writable(e),
        None => true,
    }
}

/// Whether every column's default expression can be written.
pub fn are_columns_writable(columns: &Vec<ColumnDef>) -> (r: bool)
    ensures
        r == columns_writable(columns@),
{
    let mut i: usize = 0;
    while i < columns.len()
        invariant
            i <= columns@.len(),
            forall|j: int| 0 <= j < i ==> #[trigger] column_writable(columns@[j]),
        decreases columns@.len() - i,
    {
        let ok = match &columns[i].default {
            Some(e) => is_expr_writable(e),
            None => true,
        };
        if !ok {
            assert(!column_writable(columns@[i as int]));
            return false;
        }
        i = i + 1;
    }
    true
}

/// Whether every value of every row can be written.
pub fn are_rows_writable(rows: &Vec<RowFields>) -> (r: bool)
    ensures
        r == rows_writable(rows@),
{
    let mut i: usize = 0;
    while i < rows.len()
        invariant
            i <= rows@.len(),
            forall|a: int, b: int|
                0 <= a < i && 0 <= b < rows@[a]@.len() ==> #[trigger] value_writable(
                    rows@[a]@[b].1,
                ),
        decreases rows@.len() - i,
    {
        let row = &rows[i];
        let mut k: usize = 0;
        while k < row.len()
            invariant
                i < rows@.len(),
                *row == rows@[i as int],
                k <= row@.len(),
                forall|a: int, b: int|
                    0 <= a < i && 0 <= b < rows@[a]@.len() ==> #[trigger] value_writable(
                        rows@[a]@[b].1,
                    ),
                forall|b: int| 0 <= b < k ==> #[trigger] value_writable(row@[b].1),
            decreases row@.len() - k,
        {
            if !is_value_writable(&row[k].1) {
                return false;
            }
            k = k + 1;
        }
        i = i + 1;
    }
    true
}

} // verus!
