//! Rendering of expression trees: operands, operators with their
//! parenthesization, and sort directions.
use vstd::prelude::*;
use vstd::string::StringExecFns;
use crate::context::{Context, Fragment};
use crate::expression::{
    BinaryOp, BinaryOpType, Expression, Operand, Order, Ordered, UnaryOp, UnaryOpType,
    binary_precedence, expr_precedence,
    expression_binary_op_precedence, expression_unary_op_precedence, unary_precedence,
};
use crate::sql_writer::{
    GenericSqlWriter, column_ref_sql, float64_sql, string_literal, type_text, value_sql,
    value_writable,
};
use crate::text::{int_text, push_char, write_int};

verus! {

/// `(s)` when `cond`, else `s`.
pub open spec fn parenthesized(cond: bool, s: Seq<char>) -> Seq<char> {
    if cond {
        seq!['('] + s + seq![')']
    } else {
        s
    }
}

/// Text written before the left operand, between the operands and after the
/// right operand, and whether each operand is already delimited.
pub open spec fn binary_parts(op: BinaryOpType) -> (Seq<char>, Seq<char>, Seq<char>, bool, bool) {
    match op {
        BinaryOpType::Indexing => (Seq::empty(), "["@, "]"@, false, true),
        BinaryOpType::Cast => ("CAST("@, " AS "@, ")"@, true, true),
        BinaryOpType::Multiplication => (Seq::empty(), " * "@, Seq::empty(), false, false),
        BinaryOpType::Division => (Seq::empty(), " / "@, Seq::empty(), false, false),
        BinaryOpType::Remainder => (Seq::empty(), " % "@, Seq::empty(), false, false),
        BinaryOpType::Addition => (Seq::empty(), " + "@, Seq::empty(), false, false),
        BinaryOpType::Subtraction => (Seq::empty(), " - "@, Seq::empty(), false, false),
        BinaryOpType::ShiftLeft => (Seq::empty(), " << "@, Seq::empty(), false, false),
        BinaryOpType::ShiftRight => (Seq::empty(), " >> "@, Seq::empty(), false, false),
        BinaryOpType::BitwiseAnd => (Seq::empty(), " & "@, Seq::empty(), false, false),
        BinaryOpType::BitwiseOr => (Seq::empty(), " | "@, Seq::empty(), false, false),
        BinaryOpType::Is => (Seq::empty(), " IS "@, Seq::empty(), false, false),
        BinaryOpType::IsNot => (Seq::empty(), " IS NOT "@, Seq::empty(), false, false),
        BinaryOpType::Like => (Seq::empty(), " LIKE "@, Seq::empty(), false, false),
        BinaryOpType::NotLike => (Seq::empty(), " NOT LIKE "@, Seq::empty(), false, false),
        BinaryOpType::Regexp => (Seq::empty(), " REGEXP "@, Seq::empty(), false, false),
        BinaryOpType::NotRegexp => (Seq::empty(), " NOT REGEXP "@, Seq::empty(), false, false),
        BinaryOpType::Glob => (Seq::empty(), " GLOB "@, Seq::empty(), false, false),
        BinaryOpType::NotGlob => (Seq::empty(), " NOT GLOB "@, Seq::empty(), false, false),
        BinaryOpType::Equal => (Seq::empty(), " = "@, Seq::empty(), false, false),
        BinaryOpType::NotEqual => (Seq::empty(), " != "@, Seq::empty(), false, false),
        BinaryOpType::Less => (Seq::empty(), " < "@, Seq::empty(), false, false),
        BinaryOpType::LessEqual => (Seq::empty(), " <= "@, Seq::empty(), false, false),
        BinaryOpType::Greater => (Seq::empty(), " > "@, Seq::empty(), false, false),
        BinaryOpType::GreaterEqual => (Seq::empty(), " >= "@, Seq::empty(), false, false),
        BinaryOpType::And => (Seq::empty(), " AND "@, Seq::empty(), false, false),
        BinaryOpType::Or => (Seq::empty(), " OR "@, Seq::empty(), false, false),
        BinaryOpType::Alias => (Seq::empty(), " AS "@, Seq::empty(), false, false),
    }
}

/// Whether every value inside the expression can be written.
pub open spec fn expr_writable(e: Expression) -> bool
    decreases e, 1int, 0int,
{
    match e {
        Expression::Value(v) => value_writable(v),
        Expression::Operand(o) => operand_writable(o),
        Expression::Unary(u) => expr_writable(*u.arg),
        Expression::Binary(b) => expr_writable(*b.lhs) && expr_writable(*b.rhs),
        Expression::Ordered(o) => expr_writable(*o.expression),
        _ => true,
    }
}

/// Whether every value inside the operand can be written.
pub open spec fn operand_writable(o: Operand) -> bool
    decreases o, 1int, 0int,
{
    match o {
        Operand::Variable(v) => value_writable(v),
        Operand::LitArray(xs) => operands_writable(xs@, xs@.len() as int),
        Operand::Call(_, args) => exprs_writable(args@, args@.len() as int),
        _ => true,
    }
}

pub open spec fn operands_writable(s: Seq<Operand>, n: int) -> bool
    decreases s, 0int, n,
{
    if n <= 0 || n > s.len() {
        true
    } else {
        operands_writable(s, n - 1) && operand_writable(s[n - 1])
    }
}

pub open spec fn exprs_writable(s: Seq<Expression>, n: int) -> bool
    decreases s, 0int, n,
{
    if n <= 0 || n > s.len() {
        true
    } else {
        exprs_writable(s, n - 1) && expr_writable(s[n - 1])
    }
}

/// The context with its fragment replaced.
pub open spec fn in_fragment(context: Context, fragment: Fragment) -> Context {
    Context { fragment, ..context }
}

/// The text of an expression.
pub open spec fn expr_sql(context: Context, e: Expression) -> Seq<char>
    decreases e, 1int, 0int,
{
    match e {
        Expression::Empty => Seq::empty(),
        Expression::Bool(b) => if b {
            "true"@
        } else {
            "false"@
        },
        Expression::Value(v) => value_sql(context.fragment, v),
        Expression::Operand(o) => operand_sql(context, o),
        Expression::Column(c) => column_ref_sql(context.qualify_columns, c),
        Expression::Unary(u) => unary_sql(context, u),
        Expression::Binary(b) => binary_sql(context, b),
        Expression::Ordered(o) => expr_sql(context, *o.expression) + (if context.fragment
            == Fragment::SqlSelectOrderBy {
            match o.order {
                Order::ASC => " ASC"@,
                Order::DESC => " DESC"@,
            }
        } else {
            Seq::empty()
        }),
    }
}

/// The text of a unary operation: the operator, then the argument, in
/// parentheses when it binds no tighter than the operator.
pub open spec fn unary_sql(context: Context, u: UnaryOp) -> Seq<char>
    decreases u, 0int, 0int,
{
    (match u.op {
        UnaryOpType::Negative => "-"@,
        UnaryOpType::Not => "NOT "@,
    }) + parenthesized(
        expr_precedence(*u.arg) <= unary_precedence(u.op),
        expr_sql(context, *u.arg),
    )
}

/// The text of a binary operation: an alias inside `ORDER BY` is its left
/// operand alone; otherwise the operator's prefix, infix and suffix around
/// the operands, each operand in parentheses when it binds looser than the
/// operator (the right one also when equally) unless the operator delimits
/// it; the operands of a cast are written in the casting fragment.
pub open spec fn binary_sql(context: Context, b: BinaryOp) -> Seq<char>
    decreases b, 0int, 0int,
{
    if b.op == BinaryOpType::Alias && context.fragment == Fragment::SqlSelectOrderBy {
        expr_sql(context, *b.lhs)
    } else {
        let inner = if b.op == BinaryOpType::Cast {
            in_fragment(context, Fragment::Casting)
        } else {
            context
        };
        let parts = binary_parts(b.op);
        parts.0 + parenthesized(
            !parts.3 && expr_precedence(*b.lhs) < binary_precedence(b.op),
            expr_sql(inner, *b.lhs),
        ) + parts.1 + parenthesized(
            !parts.4 && expr_precedence(*b.rhs) <= binary_precedence(b.op),
            expr_sql(inner, *b.rhs),
        ) + parts.2
    }
}

/// The text of an operand.
pub open spec fn operand_sql(context: Context, o: Operand) -> Seq<char>
    decreases o, 1int, 0int,
{
    match o {
        Operand::LitBool(b) => if b {
            "true"@
        } else {
            "false"@
        },
        Operand::LitFloat(f) => float64_sql(f),
        Operand::LitIdent(s) => s@,
        Operand::LitField(path) => path_sql(path@, path@.len() as int),
        Operand::LitInt(i) => int_text(i as int),
        Operand::LitStr(s) => string_literal(context.fragment, s@),
        Operand::LitArray(xs) => seq!['['] + operands_sql(context, xs@, xs@.len() as int)
            + seq![']'],
        Operand::Null => "NULL"@,
        Operand::Type(v) => type_text(v),
        Operand::Variable(v) => value_sql(context.fragment, v),
        Operand::Call(f, args) => f@ + seq!['('] + exprs_sql(context, args@, args@.len() as int)
            + seq![')'],
        Operand::Asterisk => "*"@,
        Operand::QuestionMark => "?"@,
    }
}

/// The first `n` operands separated by `, ` (a separator stands before an
/// operand when the one before it wrote some text).
pub open spec fn operands_sql(context: Context, s: Seq<Operand>, n: int) -> Seq<char>
    decreases s, 0int, n,
{
    if n <= 0 || n > s.len() {
        Seq::empty()
    } else {
        operands_sql(context, s, n - 1) + (if n >= 2 && operand_sql(context, s[n - 2]).len() > 0 {
            ", "@
        } else {
            Seq::empty()
        }) + operand_sql(context, s[n - 1])
    }
}

/// The first `n` expressions separated by `,` (a separator stands before an
/// expression when the one before it wrote some text).
pub open spec fn exprs_sql(context: Context, s: Seq<Expression>, n: int) -> Seq<char>
    decreases s, 0int, n,
{
    if n <= 0 || n > s.len() {
        Seq::empty()
    } else {
        exprs_sql(context, s, n - 1) + (if n >= 2 && expr_sql(context, s[n - 2]).len() > 0 {
            seq![',']
        } else {
            Seq::empty()
        }) + expr_sql(context, s[n - 1])
    }
}

/// The first `n` path segments separated by dots (a dot stands before a
/// segment when the one before it is not empty).
pub open spec fn path_sql(s: Seq<String>, n: int) -> Seq<char>
    decreases n,
{
    if n <= 0 || n > s.len() {
        Seq::empty()
    } else {
        path_sql(s, n - 1) + (if n >= 2 && s[n - 2]@.len() > 0 {
            seq!['.']
        } else {
            Seq::empty()
        }) + s[n - 1]@
    }
}

proof fn lemma_operands_writable(s: Seq<Operand>, n: int, i: int)
    requires
        operands_writable(s, n),
        0 <= i < n <= s.len(),
    ensures
        operand_writable(s[i]),
    decreases n,
{
    if i < n - 1 {
        lemma_operands_writable(s, n - 1, i);
    }
}

proof fn lemma_exprs_writable(s: Seq<Expression>, n: int, i: int)
    requires
        exprs_writable(s, n),
        0 <= i < n <= s.len(),
    ensures
        expr_writable(s[i]),
    decreases n,
{
    if i < n - 1 {
        lemma_exprs_writable(s, n - 1, i);
    }
}

impl GenericSqlWriter {
    /// Appends an expression.
    pub fn write_expression(&self, context: &Context, out: &mut String, value: &Expression)
        requires
            expr_writable(*value),
        ensures
            final(out)@ == old(out)@ + expr_sql(*context, *value),
        decreases value, 1int, 0int,
    {
        match value {
            Expression::Empty => {},
            Expression::Bool(b) => self.write_value_bool(context, out, *b),
            Expression::Value(v) => self.write_value(context, out, v),
            Expression::Operand(o) => self.write_expression_operand(context, out, o),
            Expression::Column(c) => self.write_column_ref(context, out, c),
            Expression::Unary(u) => self.write_expression_unary_op(context, out, u),
            Expression::Binary(b) => self.write_expression_binary_op(context, out, b),
            Expression::Ordered(o) => self.write_expression_ordered(context, out, o),
        }
    }

    /// Appends an operand.
    pub fn write_expression_operand(&self, context: &Context, out: &mut String, value: &Operand)
        requires
            operand_writable(*value),
        ensures
            final(out)@ == old(out)@ + operand_sql(*context, *value),
        decreases value, 1int, 0int,
    {
        let ghost start = out@;
        match value {
            Operand::LitBool(b) => self.write_value_bool(context, out, *b),
            Operand::LitFloat(f) => self.write_float64(context, out, f),
            Operand::LitIdent(s) => out.append(s.as_str()),
            Operand::LitField(path) => write_path(out, path),
            Operand::LitInt(i) => write_int(out, *i),
            Operand::LitStr(s) => self.write_value_string(context, out, s.as_str()),
            Operand::LitArray(xs) => {
                proof {
                    assert forall|i: int| 0 <= i < xs.len() implies decreases_to!(*value => #[trigger] xs@[i]) by {
                        assert(decreases_to!(*xs => xs@));
                        assert(decreases_to!(xs@ => xs@[i]));
                    }
                }
                push_char(out, '[');
                self.write_operands(context, out, xs, Ghost(*value));
                push_char(out, ']');
            },
            Operand::Null => out.append("NULL"),
            Operand::Type(v) => self.write_column_type(context, out, v),
            Operand::Variable(v) => self.write_value(context, out, v),
            Operand::Call(f, args) => {
                proof {
                    assert forall|i: int| 0 <= i < args.len() implies decreases_to!(*value => #[trigger] args@[i]) by {
                        assert(decreases_to!(*args => args@));
                        assert(decreases_to!(args@ => args@[i]));
                    }
                }
                out.append(f.as_str());
                push_char(out, '(');
                self.write_expressions(context, out, args, Ghost(*value));
                push_char(out, ')');
            },
            Operand::Asterisk => {
                proof {
                    reveal_strlit("*");
                }
                push_char(out, '*');
            },
            Operand::QuestionMark => self.write_expression_operand_question_mark(context, out),
        }
        assert(out@ =~= start + operand_sql(*context, *value));
    }

    /// Appends the parameter placeholder `?`.
    pub fn write_expression_operand_question_mark(&self, context: &Context, out: &mut String)
        ensures
            final(out)@ == old(out)@ + "?"@,
    {
        out.append("?");
    }

    /// Appends operands separated by `, `.
    fn write_operands(
        &self,
        context: &Context,
        out: &mut String,
        values: &Vec<Operand>,
        Ghost(bound): Ghost<Operand>,
    )
        requires
            forall|i: int| 0 <= i < values.len() ==> decreases_to!(bound => #[trigger] values@[i]),
            operands_writable(values@, values@.len() as int),
        ensures
            final(out)@ == old(out)@ + operands_sql(*context, values@, values@.len() as int),
        decreases bound, 0int, 0int,
    {
        let ghost start = out@;
        let mut previous_wrote = false;
        let mut i: usize = 0;
        while i < values.len()
            invariant
                i <= values.len(),
                forall|j: int|
                    0 <= j < values.len() ==> decreases_to!(bound => #[trigger] values@[j]),
                operands_writable(values@, values@.len() as int),
                out@ == start + operands_sql(*context, values@, i as int),
                i > 0 ==> previous_wrote == (operand_sql(*context, values@[i - 1]).len() > 0),
                i == 0 ==> !previous_wrote,
            decreases values.len() - i,
        {
            proof {
                lemma_operands_writable(values@, values@.len() as int, i as int);
            }
            assert(decreases_to!(bound => values@[i as int]));
            let mut piece = String::new();
            self.write_expression_operand(context, &mut piece, &values[i]);
            if previous_wrote {
                out.append(", ");
            }
            previous_wrote = !piece.as_str().is_empty();
            out.append(piece.as_str());
            assert(operands_sql(*context, values@, i + 1) == operands_sql(
                *context,
                values@,
                i as int,
            ) + (if i + 1 >= 2 && operand_sql(*context, values@[i - 1]).len() > 0 {
                ", "@
            } else {
                Seq::empty()
            }) + operand_sql(*context, values@[i as int]));
            assert(out@ =~= start + operands_sql(*context, values@, i + 1));
            i = i + 1;
        }
    }

    /// Appends expressions separated by `,`.
    fn write_expressions(
        &self,
        context: &Context,
        out: &mut String,
        values: &Vec<Expression>,
        Ghost(bound): Ghost<Operand>,
    )
        requires
            forall|i: int| 0 <= i < values.len() ==> decreases_to!(bound => #[trigger] values@[i]),
            exprs_writable(values@, values@.len() as int),
        ensures
            final(out)@ == old(out)@ + exprs_sql(*context, values@, values@.len() as int),
        decreases bound, 0int, 0int,
    {
        let ghost start = out@;
        let mut previous_wrote = false;
        let mut i: usize = 0;
        while i < values.len()
            invariant
                i <= values.len(),
                forall|j: int|
                    0 <= j < values.len() ==> decreases_to!(bound => #[trigger] values@[j]),
                exprs_writable(values@, values@.len() as int),
                out@ == start + exprs_sql(*context, values@, i as int),
                i > 0 ==> previous_wrote == (expr_sql(*context, values@[i - 1]).len() > 0),
                i == 0 ==> !previous_wrote,
            decreases values.len() - i,
        {
            proof {
                lemma_exprs_writable(values@, values@.len() as int, i as int);
            }
            assert(decreases_to!(bound => values@[i as int]));
            let mut piece = String::new();
            self.write_expression(context, &mut piece, &values[i]);
            if previous_wrote {
                push_char(out, ',');
            }
            previous_wrote = !piece.as_str().is_empty();
            out.append(piece.as_str());
            assert(exprs_sql(*context, values@, i + 1) == exprs_sql(*context, values@, i as int)
                + (if i + 1 >= 2 && expr_sql(*context, values@[i - 1]).len() > 0 {
                seq![',']
            } else {
                Seq::empty()
            }) + expr_sql(*context, values@[i as int]));
            assert(out@ =~= start + exprs_sql(*context, values@, i + 1));
            i = i + 1;
        }
    }

    /// Appends a unary operation, its argument in parentheses when it binds
    /// no tighter than the operator.
    pub fn write_expression_unary_op(&self, context: &Context, out: &mut String, value: &UnaryOp)
        requires
            expr_writable(*value.arg),
        ensures
            final(out)@ == old(out)@ + unary_sql(*context, *value),
        decreases value, 1int, 0int,
    {
        let ghost start = out@;
        proof {
            reveal_strlit("-");
        }
        match value.op {
            UnaryOpType::Negative => push_char(out, '-'),
            UnaryOpType::Not => out.append("NOT "),
        }
        let parenthesize = value.arg.precedence() <= expression_unary_op_precedence(&value.op);
        if parenthesize {
            push_char(out, '(');
        }
        self.write_expression(context, out, &value.arg);
        if parenthesize {
            push_char(out, ')');
        }
        assert(out@ =~= start + unary_sql(*context, *value));
    }

    /// Appends a binary operation: operands in parentheses when they bind
    /// looser than the operator (the right one also when equally), casts as
    /// `CAST(l AS r)`, aliases reduced to their expression inside `ORDER BY`.
    pub fn write_expression_binary_op(&self, context: &Context, out: &mut String, value: &BinaryOp)
        requires
            expr_writable(*value.lhs),
            expr_writable(*value.rhs),
        ensures
            final(out)@ == old(out)@ + binary_sql(*context, *value),
        decreases value, 1int, 0int,
    {
        let ghost start = out@;
        if value.op == BinaryOpType::Alias && context.fragment == Fragment::SqlSelectOrderBy {
            self.write_expression(context, out, &value.lhs);
            return ;
        }
        let (prefix, infix, suffix, lhs_delimited, rhs_delimited) = binary_op_parts(&value.op);
        let inner = if value.op == BinaryOpType::Cast {
            Context { fragment: Fragment::Casting, ..*context }
        } else {
            *context
        };
        let precedence = expression_binary_op_precedence(&value.op);
        out.append(prefix);
        let lhs_parens = !lhs_delimited && value.lhs.precedence() < precedence;
        if lhs_parens {
            push_char(out, '(');
        }
        self.write_expression(&inner, out, &value.lhs);
        if lhs_parens {
            push_char(out, ')');
        }
        out.append(infix);
        let rhs_parens = !rhs_delimited && value.rhs.precedence() <= precedence;
        if rhs_parens {
            push_char(out, '(');
        }
        self.write_expression(&inner, out, &value.rhs);
        if rhs_parens {
            push_char(out, ')');
        }
        out.append(suffix);
        assert(out@ =~= start + binary_sql(*context, *value));
    }

    /// Appends an expression, followed by its sort direction inside `ORDER BY`.
    pub fn write_expression_ordered(&self, context: &Context, out: &mut String, value: &Ordered)
        requires
            expr_writable(*value.expression),
        ensures
            final(out)@ == old(out)@ + expr_sql(*context, Expression::Ordered(*value)),
        decreases value, 1int, 0int,
    {
        let ghost start = out@;
        self.write_expression(context, out, &value.expression);
        if context.fragment == Fragment::SqlSelectOrderBy {
            match value.order {
                Order::ASC => out.append(" ASC"),
                Order::DESC => out.append(" DESC"),
            }
        }
        assert(out@ =~= start + expr_sql(*context, Expression::Ordered(*value)));
    }
}

/// The text pieces and delimitation flags of a binary operator.
fn binary_op_parts(op: &BinaryOpType) -> (r: (&'static str, &'static str, &'static str, bool, bool))
    ensures
        r.0@ == binary_parts(*op).0,
        r.1@ == binary_parts(*op).1,
        r.2@ == binary_parts(*op).2,
        r.3 == binary_parts(*op).3,
        r.4 == binary_parts(*op).4,
{
    proof {
        reveal_strlit("");
    }
    match op {
        BinaryOpType::Indexing => ("", "[", "]", false, true),
        BinaryOpType::Cast => ("CAST(", " AS ", ")", true, true),
        BinaryOpType::Multiplication => ("", " * ", "", false, false),
        BinaryOpType::Division => ("", " / ", "", false, false),
        BinaryOpType::Remainder => ("", " % ", "", false, false),
        BinaryOpType::Addition => ("", " + ", "", false, false),
        BinaryOpType::Subtraction => ("", " - ", "", false, false),
        BinaryOpType::ShiftLeft => ("", " << ", "", false, false),
        BinaryOpType::ShiftRight => ("", " >> ", "", false, false),
        BinaryOpType::BitwiseAnd => ("", " & ", "", false, false),
        BinaryOpType::BitwiseOr => ("", " | ", "", false, false),
        BinaryOpType::Is => ("", " IS ", "", false, false),
        BinaryOpType::IsNot => ("", " IS NOT ", "", false, false),
        BinaryOpType::Like => ("", " LIKE ", "", false, false),
        BinaryOpType::NotLike => ("", " NOT LIKE ", "", false, false),
        BinaryOpType::Regexp => ("", " REGEXP ", "", false, false),
        BinaryOpType::NotRegexp => ("", " NOT REGEXP ", "", false, false),
        BinaryOpType::Glob => ("", " GLOB ", "", false, false),
        BinaryOpType::NotGlob => ("", " NOT GLOB ", "", false, false),
        BinaryOpType::Equal => ("", " = ", "", false, false),
        BinaryOpType::NotEqual => ("", " != ", "", false, false),
        BinaryOpType::Less => ("", " < ", "", false, false),
        BinaryOpType::LessEqual => ("", " <= ", "", false, false),
        BinaryOpType::Greater => ("", " > ", "", false, false),
        BinaryOpType::GreaterEqual => ("", " >= ", "", false, false),
        BinaryOpType::And => ("", " AND ", "", false, false),
        BinaryOpType::Or => ("", " OR ", "", false, false),
        BinaryOpType::Alias => ("", " AS ", "", false, false),
    }
}

/// Appends path segments separated by dots.
fn write_path(out: &mut String, path: &Vec<String>)
    ensures
        final(out)@ == old(out)@ + path_sql(path@, path@.len() as int),
{
    let ghost start = out@;
    let mut i: usize = 0;
    while i < path.len()
        invariant
            i <= path.len(),
            out@ == start + path_sql(path@, i as int),
        decreases path.len() - i,
    {
        if i > 0 && !path[i - 1].as_str().is_empty() {
            push_char(out, '.');
        }
        out.append(path[i].as_str());
        assert(out@ =~= start + path_sql(path@, i + 1));
        i = i + 1;
    }
}

/// In `ORDER BY` an ordered expression is followed by the keyword of its own
/// direction, so the two directions are written differently.
pub proof fn law_order_by_direction(context: Context, e: Expression)
    requires
        context.fragment == Fragment::SqlSelectOrderBy,
    ensures
        expr_sql(context, Expression::Ordered(Ordered { expression: Box::new(e), order: Order::ASC }))
            == expr_sql(context, e) + " ASC"@,
        expr_sql(context, Expression::Ordered(Ordered { expression: Box::new(e), order: Order::DESC }))
            == expr_sql(context, e) + " DESC"@,
        expr_sql(context, Expression::Ordered(Ordered { expression: Box::new(e), order: Order::ASC }))
            != expr_sql(
            context,
            Expression::Ordered(Ordered { expression: Box::new(e), order: Order::DESC }),
        ),
{
    reveal_strlit(" ASC");
    reveal_strlit(" DESC");
    let t = expr_sql(context, e);
    assert((t + " ASC"@).len() != (t + " DESC"@).len());
}

/// An operand that binds no tighter than its operator on the right, or
/// looser on the left, is written in parentheses, so that reading the text
/// back gives the same tree: `a - (b + c)` keeps its parentheses.
pub proof fn law_binary_operand_parentheses(context: Context, b: BinaryOp)
    requires
        b.op != BinaryOpType::Indexing,
        b.op != BinaryOpType::Cast,
        !(b.op == BinaryOpType::Alias && context.fragment == Fragment::SqlSelectOrderBy),
    ensures
        expr_precedence(*b.rhs) <= binary_precedence(b.op) ==> (seq!['('] + expr_sql(
            context,
            *b.rhs,
        ) + seq![')']).is_suffix_of(expr_sql(context, Expression::Binary(b))),
        expr_precedence(*b.lhs) < binary_precedence(b.op) ==> (seq!['('] + expr_sql(
            context,
            *b.lhs,
        ) + seq![')']).is_prefix_of(expr_sql(context, Expression::Binary(b))),
{
    let whole = expr_sql(context, Expression::Binary(b));
    assert(whole == binary_sql(context, b));
    let parts = binary_parts(b.op);
    assert(parts.0 == Seq::<char>::empty() && parts.2 == Seq::<char>::empty() && !parts.3
        && !parts.4);
    let l = parenthesized(expr_precedence(*b.lhs) < binary_precedence(b.op), expr_sql(context, *b.lhs));
    let r = parenthesized(expr_precedence(*b.rhs) <= binary_precedence(b.op), expr_sql(context, *b.rhs));
    assert(whole =~= l + parts.1 + r);
    assert(whole.skip(whole.len() - r.len()) =~= r);
    assert(whole.take(l.len() as int) =~= l);
}

} // verus!
