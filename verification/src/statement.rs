//! The first statement builder: a statement grows fragment by fragment, the
//! type of its last fragment deciding which fragments may follow.
use vstd::prelude::*;
use vstd::string::StringExecFns;
use crate::metadata::{ColumnDef, ColumnRef, DataType};
use crate::text::push_char;
use crate::write_sql::{WriteSql, column_defs_sql};

verus! {

/// Renders statements for a database.
pub trait Backend {
    /// The text of a statement; by default nothing.
    fn write_sql<F: Fragment>(&self, statement: &Statement<F>) -> (r: String)
        default_ensures
            r@ == Seq::<char>::empty(),
    {
        String::new()
    }

    /// Writes one fragment, saying whether it did; by default it does not,
    /// and writes nothing.
    fn write_sql_fragment<F: Fragment>(&self, status: &F, output: &mut String) -> (r: bool)
        default_ensures
            !r,
            final(output)@ == old(output)@,
    {
        false
    }

    /// Handles a data type.
    fn write_sql_type(&self, data_type: &DataType);
}

/// A fragment of a statement of any kind.
#[derive(Debug)]
pub enum AnyFragment {
    Initial(InitialFragment),
    Select(SelectFragment),
    Where(WhereFragment),
    CreateTable(CreateTableFragment),
}

/// A kind of statement fragment.
pub trait Fragment: Sized {
    /// The fragment as one of any kind.
    spec fn any(self) -> AnyFragment;

    /// The fragment as one of any kind.
    fn into_any(self) -> (r: AnyFragment)
        ensures
            r == self.any(),
    ;
}

/// Fragments that a `SELECT` may follow.
pub trait AllowSelect {}

/// Fragments that a `WHERE` may follow.
pub trait AllowWhere {}

/// Fragments that a `CREATE TABLE` may follow.
pub trait AllowCreateTable {}

/// The start of every statement.
#[derive(Debug, Default)]
pub struct InitialFragment;

impl Fragment for InitialFragment {
    open spec fn any(self) -> AnyFragment {
        AnyFragment::Initial(self)
    }

    fn into_any(self) -> (r: AnyFragment) {
        AnyFragment::Initial(self)
    }
}

impl AllowSelect for InitialFragment {}

/// The columns of a `SELECT`.
#[derive(Debug)]
pub struct SelectFragment {
    columns: Vec<ColumnRef>,
}

impl SelectFragment {
    pub closed spec fn spec_columns(self) -> Seq<ColumnRef> {
        self.columns@
    }

    /// The selected columns.
    pub fn get_columns(&self) -> (r: &[ColumnRef])
        ensures
            r@ == self.spec_columns(),
    {
        self.columns.as_slice()
    }
}

impl Fragment for SelectFragment {
    open spec fn any(self) -> AnyFragment {
        AnyFragment::Select(self)
    }

    fn into_any(self) -> (r: AnyFragment) {
        AnyFragment::Select(self)
    }
}

/// The columns of a `WHERE`.
#[derive(Debug)]
pub struct WhereFragment {
    columns: Vec<ColumnRef>,
}

impl WhereFragment {
    pub closed spec fn spec_columns(self) -> Seq<ColumnRef> {
        self.columns@
    }

    /// The columns of the condition.
    pub fn get_columns(&self) -> (r: &[ColumnRef])
        ensures
            r@ == self.spec_columns(),
    {
        self.columns.as_slice()
    }
}

impl Fragment for WhereFragment {
    open spec fn any(self) -> AnyFragment {
        AnyFragment::Where(self)
    }

    fn into_any(self) -> (r: AnyFragment) {
        AnyFragment::Where(self)
    }
}

/// A `CREATE TABLE`: the table's name, its columns, and whether the table
/// is temporary and created only when missing.
#[derive(Debug)]
pub struct CreateTableFragment {
    table_name: String,
    if_not_exists: bool,
    columns: Vec<ColumnDef>,
    temporary: bool,
}

impl CreateTableFragment {
    pub closed spec fn spec_table_name(self) -> Seq<char> {
        self.table_name@
    }

    pub closed spec fn spec_if_not_exists(self) -> bool {
        self.if_not_exists
    }

    pub closed spec fn spec_columns(self) -> Seq<ColumnDef> {
        self.columns@
    }

    pub closed spec fn spec_temporary(self) -> bool {
        self.temporary
    }

    /// The table's name.
    pub fn get_table_name(&self) -> (r: &str)
        ensures
            r@ == self.spec_table_name(),
    {
        self.table_name.as_str()
    }

    /// The columns.
    pub fn get_columns(&self) -> (r: &[ColumnDef])
        ensures
            r@ == self.spec_columns(),
    {
        self.columns.as_slice()
    }

    /// Whether the table is created only when missing.
    pub fn get_if_not_exists(&self) -> (r: bool)
        ensures
            r == self.spec_if_not_exists(),
    {
        self.if_not_exists
    }
}

impl Fragment for CreateTableFragment {
    open spec fn any(self) -> AnyFragment {
        AnyFragment::CreateTable(self)
    }

    fn into_any(self) -> (r: AnyFragment) {
        AnyFragment::CreateTable(self)
    }
}

/// A statement: the fragments before the last one, and the last one. A
/// statement that has just started has none; it holds the initial fragment
/// without counting it.
#[derive(Debug)]
pub struct Statement<S: Fragment> {
    previous: Vec<AnyFragment>,
    current: S,
    started: bool,
}

impl<S: Fragment> Statement<S> {
    pub closed spec fn spec_previous(self) -> Seq<AnyFragment> {
        self.previous@
    }

    pub closed spec fn spec_current(self) -> Option<S> {
        if self.started {
            Some(self.current)
        } else {
            None
        }
    }

    /// All the fragments, in order.
    pub open spec fn fragments(self) -> Seq<AnyFragment> {
        match self.spec_current() {
            Some(c) => self.spec_previous().push(c.any()),
            None => self.spec_previous(),
        }
    }

    /// The last fragment; a statement that has just started has none.
    pub fn get_current_fragment(&mut self) -> (r: &mut S)
        requires
            old(self).spec_current() is Some,
        ensures
            *r == old(self).spec_current()->0,
            final(self).spec_previous() == old(self).spec_previous(),
            final(self).spec_current() == Some(*final(r)),
    {
        &mut self.current
    }

    /// The statement followed by a new fragment, which becomes the last one.
    pub fn add_fragment<F: Fragment>(self, new: F) -> (r: Statement<F>)
        ensures
            r.spec_previous() == self.fragments(),
            r.spec_current() == Some(new),
    {
        let Statement { previous, current, started } = self;
        let mut previous = previous;
        if started {
            let any = current.into_any();
            previous.push(any);
        }
        Statement { previous, current: new, started: true }
    }

    /// The statement's text, as the backend renders it: what the backend's
    /// `write_sql` gives for this statement.
    pub fn to_sql<B: Backend>(&self, backend: &B) -> (r: String)
        ensures
            call_ensures(B::write_sql::<S>, (backend, self), r),
    {
        backend.write_sql(self)
    }
}

impl<S: Fragment> core::ops::Deref for Statement<S> {
    type Target = S;

    /// The last fragment (a statement that has just started gives the
    /// initial fragment).
    fn deref(&self) -> (r: &S)
        ensures
            self.spec_current() matches Some(c) ==> *r == c,
    {
        &self.current
    }
}

impl Default for Statement<InitialFragment> {
    fn default() -> (r: Self)
        ensures
            r.spec_previous().len() == 0,
            r.spec_current() is None,
    {
        Statement { previous: Vec::new(), current: InitialFragment, started: false }
    }
}

/// A new statement, with no fragment yet.
pub fn sql() -> (r: Statement<InitialFragment>)
    ensures
        r.fragments().len() == 0,
{
    Statement { previous: Vec::new(), current: InitialFragment, started: false }
}

/// Statements that may go on with a `SELECT`.
pub trait TransitionSelect: Sized {
    fn select(self, columns: Vec<ColumnRef>) -> Statement<SelectFragment>;
}

impl<F: Fragment + AllowSelect> TransitionSelect for Statement<F> {
    fn select(self, columns: Vec<ColumnRef>) -> (r: Statement<SelectFragment>)
        ensures
            r.spec_previous() == self.fragments(),
            r.spec_current() matches Some(s) && s.spec_columns() == columns@,
    {
        self.add_fragment(SelectFragment { columns })
    }
}

/// Statements that may go on with a `WHERE`.
pub trait TransitionWhere: Sized {
    fn select(self, columns: Vec<ColumnRef>) -> Statement<WhereFragment>;
}

impl<F: Fragment + AllowWhere> TransitionWhere for Statement<F> {
    fn select(self, columns: Vec<ColumnRef>) -> (r: Statement<WhereFragment>)
        ensures
            r.spec_previous() == self.fragments(),
            r.spec_current() matches Some(s) && s.spec_columns() == columns@,
    {
        self.add_fragment(WhereFragment { columns })
    }
}

/// Statements that may go on with a `CREATE TABLE`.
pub trait TransitionCreateTable: Sized {
    fn create_table(self, table_name: String) -> Statement<CreateTableFragment>;
}

impl<F: Fragment + AllowCreateTable> TransitionCreateTable for Statement<F> {
    fn create_table(self, table_name: String) -> (r: Statement<CreateTableFragment>)
        ensures
            r.spec_previous() == self.fragments(),
            r.spec_current() matches Some(c) && c.spec_table_name() == table_name@
                && !c.spec_if_not_exists() && c.spec_columns().len() == 0 && !c.spec_temporary(),
    {
        self.add_fragment(
            CreateTableFragment {
                table_name,
                if_not_exists: false,
                columns: Vec::new(),
                temporary: false,
            },
        )
    }
}

impl Statement<CreateTableFragment> {
    /// The table made temporary.
    pub fn temporary(self) -> (r: Statement<CreateTableFragment>)
        requires
            self.spec_current() is Some,
        ensures
            r.spec_previous() == self.spec_previous(),
            r.spec_current() matches Some(c) && self.spec_current() matches Some(o)
                && c.spec_temporary() && c.spec_table_name() == o.spec_table_name()
                && c.spec_if_not_exists() == o.spec_if_not_exists() && c.spec_columns()
                == o.spec_columns(),
    {
        let mut s = self;
        s.get_current_fragment().temporary = true;
        s
    }

    /// The table given these columns.
    pub fn columns(self, columns: Vec<ColumnDef>) -> (r: Statement<CreateTableFragment>)
        requires
            self.spec_current() is Some,
        ensures
            r.spec_previous() == self.spec_previous(),
            r.spec_current() matches Some(c) && self.spec_current() matches Some(o)
                && c.spec_columns() == columns@ && c.spec_table_name() == o.spec_table_name()
                && c.spec_if_not_exists() == o.spec_if_not_exists() && c.spec_temporary()
                == o.spec_temporary(),
    {
        let mut s = self;
        s.get_current_fragment().columns = columns;
        s
    }
}

/// The text of a `CREATE TABLE` fragment: the keywords, then the columns'
/// definitions joined by commas.
pub open spec fn create_table_fragment_sql(f: CreateTableFragment) -> Seq<char> {
    "CREATE "@ + (if f.spec_temporary() {
        "TEMPORARY "@
    } else {
        Seq::empty()
    }) + "TABLE "@ + (if f.spec_if_not_exists() {
        "IF NOT EXISTS "@
    } else {
        Seq::empty()
    }) + column_defs_sql(f.spec_columns())
}

impl WriteSql for CreateTableFragment {
    fn write_sql<B: Backend>(&self, backend: &B, output: &mut String)
        ensures
            final(output)@ == old(output)@ + create_table_fragment_sql(*self),
    {
        let ghost start = output@;
        output.append("CREATE ");
        if self.temporary {
            output.append("TEMPORARY ");
        }
        output.append("TABLE ");
        if self.if_not_exists {
            output.append("IF NOT EXISTS ");
        }
        let ghost head = output@;
        let columns = &self.columns;
        let mut i: usize = 0;
        while i < columns.len()
            invariant
                i <= columns@.len(),
                output@ == head + column_defs_sql(columns@.take(i as int)),
            decreases columns@.len() - i,
        {
            assert(columns@.take(i + 1).drop_last() =~= columns@.take(i as int));
            if i > 0 {
                push_char(output, ',');
            }
            columns[i].write_sql(backend, output);
            i = i + 1;
        }
        assert(columns@.take(columns@.len() as int) =~= columns@);
        assert(output@ =~= start + create_table_fragment_sql(*self));
    }
}

} // verus!
