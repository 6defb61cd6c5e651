//! Expression trees that SQL conditions, projections and defaults are made of.
use vstd::prelude::*;
use crate::table_ref::ColumnRef;
use crate::value::{Float64Value, Value, float64_eq, float64_equal, spec_same_type};

verus! {

/// Binary operators, from the tightest binding to the loosest.
#[derive(Clone, Copy, Debug, PartialEq, Eq, Structural)]
pub enum BinaryOpType {
    Indexing,
    Cast,
    Multiplication,
    Division,
    Remainder,
    Addition,
    Subtraction,
    ShiftLeft,
    ShiftRight,
    BitwiseAnd,
    BitwiseOr,
    Is,
    IsNot,
    Like,
    NotLike,
    Regexp,
    NotRegexp,
    Glob,
    NotGlob,
    Equal,
    NotEqual,
    Less,
    Greater,
    LessEqual,
    GreaterEqual,
    And,
    Or,
    Alias,
}

/// Unary operators.
#[derive(Clone, Copy, Debug, PartialEq, Eq, Structural)]
pub enum UnaryOpType {
    Negative,
    Not,
}

/// Sort direction.
#[derive(Clone, Copy, Debug, PartialEq, Eq, Structural)]
pub enum Order {
    ASC,
    DESC,
}

/// Kinds of join.
#[derive(Clone, Copy, Debug, PartialEq, Eq, Structural)]
pub enum JoinType {
    Default,
    Inner,
    Outer,
    Left,
    Right,
    Cross,
    Natural,
}

impl Default for JoinType {
    fn default() -> (r: Self)
        ensures
            r == JoinType::Default,
    {
        JoinType::Default
    }
}

/// Leaves of an expression: literals, identifiers, types, bound values,
/// function calls and placeholders.
#[derive(Debug)]
pub enum Operand {
    LitBool(bool),
    LitFloat(Float64Value),
    LitIdent(String),
    /// A dotted path such as `schema.table.column`.
    LitField(Vec<String>),
    LitInt(i128),
    LitStr(String),
    LitArray(Vec<Operand>),
    Null,
    /// A value prototype written as its SQL type.
    Type(Value),
    /// A value written as a literal.
    Variable(Value),
    /// A function name and its arguments.
    Call(String, Vec<Expression>),
    Asterisk,
    QuestionMark,
}

/// An expression tree.
#[derive(Debug)]
pub enum Expression {
    /// The empty expression (writes nothing).
    Empty,
    Bool(bool),
    Value(Value),
    Operand(Operand),
    Column(ColumnRef),
    Unary(UnaryOp),
    Binary(BinaryOp),
    Ordered(Ordered),
}

/// A unary operator applied to an argument.
#[derive(Debug)]
pub struct UnaryOp {
    pub op: UnaryOpType,
    pub arg: Box<Expression>,
}

/// A binary operator applied to two operands.
#[derive(Debug)]
pub struct BinaryOp {
    pub op: BinaryOpType,
    pub lhs: Box<Expression>,
    pub rhs: Box<Expression>,
}

/// An expression with a sort direction.
#[derive(Debug)]
pub struct Ordered {
    pub expression: Box<Expression>,
    pub order: Order,
}

/// Binding strength of unary operators in the generic dialect.
pub open spec fn unary_precedence(op: UnaryOpType) -> int {
    match op {
        UnaryOpType::Negative => 1250,
        UnaryOpType::Not => 250,
    }
}

/// Binding strength of binary operators in the generic dialect.
pub open spec fn binary_precedence(op: BinaryOpType) -> int {
    match op {
        BinaryOpType::Or => 100,
        BinaryOpType::And => 200,
        BinaryOpType::Equal => 300,
        BinaryOpType::NotEqual => 300,
        BinaryOpType::Less => 300,
        BinaryOpType::Greater => 300,
        BinaryOpType::LessEqual => 300,
        BinaryOpType::GreaterEqual => 300,
        BinaryOpType::Is => 400,
        BinaryOpType::IsNot => 400,
        BinaryOpType::Like => 400,
        BinaryOpType::NotLike => 400,
        BinaryOpType::Regexp => 400,
        BinaryOpType::NotRegexp => 400,
        BinaryOpType::Glob => 400,
        BinaryOpType::NotGlob => 400,
        BinaryOpType::BitwiseOr => 500,
        BinaryOpType::BitwiseAnd => 600,
        BinaryOpType::ShiftLeft => 700,
        BinaryOpType::ShiftRight => 700,
        BinaryOpType::Subtraction => 800,
        BinaryOpType::Addition => 800,
        BinaryOpType::Multiplication => 900,
        BinaryOpType::Division => 900,
        BinaryOpType::Remainder => 900,
        BinaryOpType::Indexing => 1000,
        BinaryOpType::Cast => 1100,
        BinaryOpType::Alias => 1200,
    }
}

/// Binding strength of an expression: operators by their table, literal
/// values and booleans lowest, operands and columns high, the empty expression highest.
pub open spec fn expr_precedence(e: Expression) -> int
    decreases e,
{
    match e {
        Expression::Empty => 1_000_000_000,
        Expression::Bool(_) => 0,
        Expression::Value(_) => 0,
        Expression::Operand(_) => 1_000_000,
        Expression::Column(_) => 1_000_000,
        Expression::Unary(u) => unary_precedence(u.op),
        Expression::Binary(b) => binary_precedence(b.op),
        Expression::Ordered(o) => expr_precedence(*o.expression),
    }
}

/// Binding strength of unary operators.
pub fn expression_unary_op_precedence(op: &UnaryOpType) -> (r: i32)
    ensures
        r == unary_precedence(*op),
{
    match op {
        UnaryOpType::Negative => 1250,
        UnaryOpType::Not => 250,
    }
}

/// Binding strength of binary operators.
pub fn expression_binary_op_precedence(op: &BinaryOpType) -> (r: i32)
    ensures
        r == binary_precedence(*op),
{
    match op {
        BinaryOpType::Or => 100,
        BinaryOpType::And => 200,
        BinaryOpType::Equal => 300,
        BinaryOpType::NotEqual => 300,
        BinaryOpType::Less => 300,
        BinaryOpType::Greater => 300,
        BinaryOpType::LessEqual => 300,
        BinaryOpType::GreaterEqual => 300,
        BinaryOpType::Is => 400,
        BinaryOpType::IsNot => 400,
        BinaryOpType::Like => 400,
        BinaryOpType::NotLike => 400,
        BinaryOpType::Regexp => 400,
        BinaryOpType::NotRegexp => 400,
        BinaryOpType::Glob => 400,
        BinaryOpType::NotGlob => 400,
        BinaryOpType::BitwiseOr => 500,
        BinaryOpType::BitwiseAnd => 600,
        BinaryOpType::ShiftLeft => 700,
        BinaryOpType::ShiftRight => 700,
        BinaryOpType::Subtraction => 800,
        BinaryOpType::Addition => 800,
        BinaryOpType::Multiplication => 900,
        BinaryOpType::Division => 900,
        BinaryOpType::Remainder => 900,
        BinaryOpType::Indexing => 1000,
        BinaryOpType::Cast => 1100,
        BinaryOpType::Alias => 1200,
    }
}

impl Expression {
    /// The binding strength of the expression.
    pub fn precedence(&self) -> (r: i32)
        ensures
            r == expr_precedence(*self),
        decreases self,
    {
        match self {
            Expression::Empty => 1_000_000_000,
            Expression::Bool(_) => 0,
            Expression::Value(_) => 0,
            Expression::Operand(_) => 1_000_000,
            Expression::Column(_) => 1_000_000,
            Expression::Unary(u) => expression_unary_op_precedence(&u.op),
            Expression::Binary(b) => expression_binary_op_precedence(&b.op),
            Expression::Ordered(o) => o.expression.precedence(),
        }
    }

    /// Whether the expression carries a sort direction.
    pub fn is_ordered(&self) -> (r: bool)
        ensures
            r == (*self is Ordered),
    {
        match self {
            Expression::Ordered(..) => true,
            _ => false,
        }
    }
}

/// Name of a binary operator.
pub open spec fn binary_op_name(op: BinaryOpType) -> Seq<char> {
    match op {
        BinaryOpType::Indexing => "Indexing"@,
        BinaryOpType::Cast => "Cast"@,
        BinaryOpType::Multiplication => "Multiplication"@,
        BinaryOpType::Division => "Division"@,
        BinaryOpType::Remainder => "Remainder"@,
        BinaryOpType::Addition => "Addition"@,
        BinaryOpType::Subtraction => "Subtraction"@,
        BinaryOpType::ShiftLeft => "ShiftLeft"@,
        BinaryOpType::ShiftRight => "ShiftRight"@,
        BinaryOpType::BitwiseAnd => "BitwiseAnd"@,
        BinaryOpType::BitwiseOr => "BitwiseOr"@,
        BinaryOpType::Is => "Is"@,
        BinaryOpType::IsNot => "IsNot"@,
        BinaryOpType::Like => "Like"@,
        BinaryOpType::NotLike => "NotLike"@,
        BinaryOpType::Regexp => "Regexp"@,
        BinaryOpType::NotRegexp => "NotRegexp"@,
        BinaryOpType::Glob => "Glob"@,
        BinaryOpType::NotGlob => "NotGlob"@,
        BinaryOpType::Equal => "Equal"@,
        BinaryOpType::NotEqual => "NotEqual"@,
        BinaryOpType::Less => "Less"@,
        BinaryOpType::Greater => "Greater"@,
        BinaryOpType::LessEqual => "LessEqual"@,
        BinaryOpType::GreaterEqual => "GreaterEqual"@,
        BinaryOpType::And => "And"@,
        BinaryOpType::Or => "Or"@,
        BinaryOpType::Alias => "Alias"@,
    }
}

impl BinaryOpType {
    /// The operator's name, as its variant is spelled.
    pub fn name(&self) -> (r: &'static str)
        ensures
            r@ == binary_op_name(*self),
    {
        match self {
            BinaryOpType::Indexing => "Indexing",
            BinaryOpType::Cast => "Cast",
            BinaryOpType::Multiplication => "Multiplication",
            BinaryOpType::Division => "Division",
            BinaryOpType::Remainder => "Remainder",
            BinaryOpType::Addition => "Addition",
            BinaryOpType::Subtraction => "Subtraction",
            BinaryOpType::ShiftLeft => "ShiftLeft",
            BinaryOpType::ShiftRight => "ShiftRight",
            BinaryOpType::BitwiseAnd => "BitwiseAnd",
            BinaryOpType::BitwiseOr => "BitwiseOr",
            BinaryOpType::Is => "Is",
            BinaryOpType::IsNot => "IsNot",
            BinaryOpType::Like => "Like",
            BinaryOpType::NotLike => "NotLike",
            BinaryOpType::Regexp => "Regexp",
            BinaryOpType::NotRegexp => "NotRegexp",
            BinaryOpType::Glob => "Glob",
            BinaryOpType::NotGlob => "NotGlob",
            BinaryOpType::Equal => "Equal",
            BinaryOpType::NotEqual => "NotEqual",
            BinaryOpType::Less => "Less",
            BinaryOpType::Greater => "Greater",
            BinaryOpType::LessEqual => "LessEqual",
            BinaryOpType::GreaterEqual => "GreaterEqual",
            BinaryOpType::And => "And",
            BinaryOpType::Or => "Or",
            BinaryOpType::Alias => "Alias",
        }
    }
}

/// What `==` means on operands: literals of the same kind compare by value
/// (floats as numbers, NaN equal to NaN), arrays element-wise, type
/// prototypes by their type; every other pair differs, also two equal
/// `Null`, field, variable, call, `*` or `?` operands.
pub open spec fn spec_operand_eq(a: Operand, b: Operand) -> bool
    decreases a,
{
    match (a, b) {
        (Operand::LitBool(l), Operand::LitBool(r)) => l == r,
        (Operand::LitFloat(l), Operand::LitFloat(r)) => float64_eq(l.bits, r.bits),
        (Operand::LitIdent(l), Operand::LitIdent(r)) => l@ == r@,
        (Operand::LitInt(l), Operand::LitInt(r)) => l == r,
        (Operand::LitStr(l), Operand::LitStr(r)) => l@ == r@,
        (Operand::LitArray(l), Operand::LitArray(r)) => l.len() == r.len() && forall|i: int|
            0 <= i < l.len() ==> spec_operand_eq(#[trigger] l@[i], r@[i]),
        (Operand::Type(l), Operand::Type(r)) => spec_same_type(l, r),
        _ => false,
    }
}

fn operands_eq_all(x: &Vec<Operand>, y: &Vec<Operand>, Ghost(bound): Ghost<Operand>) -> (r: bool)
    requires
        forall|i: int| 0 <= i < x.len() ==> decreases_to!(bound => #[trigger] x@[i]),
    ensures
        r == (x.len() == y.len() && forall|i: int|
            0 <= i < x.len() ==> spec_operand_eq(#[trigger] x@[i], y@[i])),
    decreases bound, 0nat,
{
    if x.len() != y.len() {
        return false;
    }
    let mut i: usize = 0;
    while i < x.len()
        invariant
            x.len() == y.len(),
            i <= x.len(),
            forall|j: int| 0 <= j < x.len() ==> decreases_to!(bound => #[trigger] x@[j]),
            forall|j: int| 0 <= j < i ==> spec_operand_eq(#[trigger] x@[j], y@[j]),
        decreases x.len() - i,
    {
        assert(decreases_to!(bound => x@[i as int]));
        if !operands_eq(&x[i], &y[i]) {
            return false;
        }
        i = i + 1;
    }
    true
}

fn operands_eq(a: &Operand, b: &Operand) -> (r: bool)
    ensures
        r == spec_operand_eq(*a, *b),
    decreases *a, 1nat,
{
    match (a, b) {
        (Operand::LitBool(l), Operand::LitBool(r)) => *l == *r,
        (Operand::LitFloat(l), Operand::LitFloat(r)) => float64_equal(l.bits, r.bits),
        (Operand::LitIdent(l), Operand::LitIdent(r)) => *l == *r,
        (Operand::LitInt(l), Operand::LitInt(r)) => *l == *r,
        (Operand::LitStr(l), Operand::LitStr(r)) => *l == *r,
        (Operand::LitArray(l), Operand::LitArray(r)) => {
            proof {
                assert forall|i: int| 0 <= i < l.len() implies decreases_to!(*a => #[trigger] l@[i]) by {
                    assert(decreases_to!(*l => l@));
                    assert(decreases_to!(l@ => l@[i]));
                }
            }
            operands_eq_all(l, r, Ghost(*a))
        },
        (Operand::Type(l), Operand::Type(r)) => l.same_type(r),
        _ => false,
    }
}

impl PartialEq for Operand {
    fn eq(&self, other: &Self) -> (r: bool) {
        operands_eq(self, other)
    }
}

impl vstd::std_specs::cmp::PartialEqSpecImpl for Operand {
    open spec fn obeys_eq_spec() -> bool {
        true
    }

    open spec fn eq_spec(&self, other: &Self) -> bool {
        spec_operand_eq(*self, *other)
    }
}

} // verus!
