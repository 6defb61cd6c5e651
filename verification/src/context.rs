//! The state threaded through SQL rendering: which statement fragment is
//! being written and whether columns are written with their table.
use vstd::prelude::*;

verus! {

/// The statement fragment that is being written.
#[derive(Clone, Copy, Debug, PartialEq, Eq, Structural)]
pub enum Fragment {
    Unset,
    Casting,
    SqlCommentOnColumn,
    SqlCreateSchema,
    SqlCreateTable,
    SqlCreateTablePrimaryKey,
    SqlCreateTableUnique,
    SqlDeleteFrom,
    SqlDeleteFromWhere,
    SqlDropSchema,
    SqlDropTable,
    SqlInsertInto,
    SqlInsertIntoOnConflict,
    SqlInsertIntoValues,
    SqlJoin,
    SqlSelect,
    SqlSelectFrom,
    SqlSelectOrderBy,
    SqlSelectWhere,
    StringLiteral,
}

impl Default for Fragment {
    fn default() -> (r: Self)
        ensures
            r == Fragment::Unset,
    {
        Fragment::Unset
    }
}

/// Rendering state: a counter shared by nested fragments, the current
/// fragment and whether column references are qualified with their table.
#[derive(Clone, Copy, Debug, PartialEq, Eq, Structural)]
pub struct Context {
    pub counter: u32,
    pub fragment: Fragment,
    pub qualify_columns: bool,
}

impl Context {
    /// A fresh context for `fragment`, with the counter at zero.
    pub fn new(fragment: Fragment, qualify_columns: bool) -> (r: Self)
        ensures
            r == (Context { counter: 0, fragment, qualify_columns }),
    {
        Self { counter: 0, fragment, qualify_columns }
    }

    /// A fresh context outside any fragment, with the counter at zero.
    pub fn new_qualify(qualify_columns: bool) -> (r: Self)
        ensures
            r == (Context { counter: 0, fragment: Fragment::Unset, qualify_columns }),
    {
        Self { counter: 0, fragment: Fragment::Unset, qualify_columns }
    }

    /// Takes over the counter of `context`, keeping the fragment and qualification.
    pub fn update_from(&mut self, context: &Context)
        ensures
            final(self).counter == context.counter,
            final(self).fragment == old(self).fragment,
            final(self).qualify_columns == old(self).qualify_columns,
    {
        self.counter = context.counter;
    }

    /// Enters `fragment`: the updater's current context is this one with the
    /// fragment replaced; finishing the updater hands its counter back here.
    pub fn switch_fragment<'s>(&'s mut self, fragment: Fragment) -> (r: ContextUpdater<'s>)
        ensures
            r.current == (Context { fragment, ..*old(self) }),
            *r.previous == *old(self),
            *final(self) == *final(r.previous),
    {
        ContextUpdater { current: Context { fragment, ..*self }, previous: self }
    }
}

impl Default for Context {
    fn default() -> (r: Self)
        ensures
            r == (Context { counter: 0, fragment: Fragment::Unset, qualify_columns: true }),
    {
        Context::new(Fragment::Unset, true)
    }
}

/// A context entered for a nested fragment, together with the context it
/// was entered from.
pub struct ContextUpdater<'a> {
    pub current: Context,
    pub previous: &'a mut Context,
}

impl<'a> ContextUpdater<'a> {
    /// Leaves the nested fragment: the outer context takes over the counter.
    pub fn finish(self)
        ensures
            final(self.previous).counter == self.current.counter,
            final(self.previous).fragment == old(self.previous).fragment,
            final(self.previous).qualify_columns == old(self.previous).qualify_columns,
    {
        let ContextUpdater { current, previous } = self;
        previous.counter = current.counter;
    }
}

} // verus!
