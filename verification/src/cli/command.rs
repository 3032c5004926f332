use vstd::prelude::*;

use crate::cli::spec;
use crate::cli::spec::flag::{first_index_from, lookup_result, FlagView, Query, QueryView};
use crate::command::arg::ArgView;

pub mod arg;
pub mod operand;

pub use crate::command::flag;
pub use arg::Arg;

use flag::{Flag, FlagSet};
use operand::{Operand, OperandList};

verus! {

/// The text of an argument, if there is one.
pub open spec fn arg_text(a: ArgView) -> Option<Seq<char>> {
    match a {
        ArgView::NoArg => None,
        ArgView::Optional(o) => o,
        ArgView::Required(s) => Some(s),
    }
}

/// Whether a given argument is what the flag's specification calls for: none,
/// an optional one that is there, or a required one.
pub open spec fn arg_fits(spec_arg: spec::Arg, a: ArgView) -> bool {
    match spec_arg {
        spec::Arg::NoArg => a is NoArg,
        spec::Arg::Optional => a matches ArgView::Optional(Some(_)),
        spec::Arg::Required => a is Required,
    }
}

/// Whether every entry's argument is what its specification calls for.
pub open spec fn entries_fit(entries: Seq<(FlagView, ArgView)>) -> bool {
    forall|i: int| 0 <= i < entries.len() ==> arg_fits(#[trigger] entries[i].0.1, entries[i].1)
}

/// A command as given on the command line: its specification, the flags
/// given with their arguments, and the operands in order.
#[derive(Debug)]
pub struct Command<'a> {
    spec: &'a spec::Command,
    flags: FlagSet<'a>,
    operands: OperandList,
}

impl<'a> Command<'a> {
    pub closed spec fn spec_spec(&self) -> &'a spec::Command {
        self.spec
    }

    pub closed spec fn spec_flags(&self) -> FlagSet<'a> {
        self.flags
    }

    pub closed spec fn spec_operands(&self) -> Seq<Operand> {
        self.operands@
    }

    /// The flags given, each with its specification and argument, in the
    /// order in which they first appeared.
    pub open spec fn flag_entries(&self) -> Seq<(FlagView, ArgView)> {
        self.spec_flags().entries().map_values(|f: Flag<'a>| f.entry())
    }

    /// The operands' texts, in order.
    pub open spec fn operand_views(&self) -> Seq<Seq<char>> {
        self.spec_operands().map_values(|o: Operand| o@)
    }

    /// The position of the given flag that `q` designates, if any.
    pub open spec fn flag_index(&self, q: QueryView) -> Option<int> {
        first_index_from(self.spec_flags().ids(), q, 0)
    }

    /// Whether a flag that `q` designates was given.
    pub open spec fn has_flag(&self, q: QueryView) -> bool {
        self.flag_index(q) is Some
    }

    /// The argument text of the given flag that `q` designates, if it came
    /// with one.
    pub open spec fn flag_arg(&self, q: QueryView) -> Option<Seq<char>> {
        match self.flag_index(q) {
            Some(i) => arg_text(self.spec_flags().entries()[i].spec_arg()@),
            None => None,
        }
    }

    pub fn new(spec: &'a spec::Command, flags: FlagSet<'a>, operands: OperandList) -> (res: Command<'a>)
        ensures
            res.spec_spec() == spec,
            res.spec_flags() == flags,
            res.spec_operands() == operands@,
    {
        Command { spec, flags, operands }
    }

    pub fn spec(&self) -> (res: &'a spec::Command)
        ensures
            res == self.spec_spec(),
    {
        self.spec
    }

    pub fn flags(&self) -> (res: &FlagSet<'a>)
        ensures
            *res == self.spec_flags(),
    {
        &self.flags
    }

    /// The given flag that `query` designates.
    pub fn get_flag(&self, query: Query) -> (res: Option<&Flag<'a>>)
        ensures
            lookup_result(&self.spec_flags(), query@, res),
    {
        flag::query(&query, &self.flags)
    }

    pub fn operands(&self) -> (res: &OperandList)
        ensures
            res@ == self.spec_operands(),
    {
        &self.operands
    }

    pub fn flags_mut(&mut self) -> (res: &mut FlagSet<'a>)
        ensures
            *res == old(self).spec_flags(),
            final(self).spec_flags() == *final(res),
            final(self).spec_spec() == old(self).spec_spec(),
            final(self).spec_operands() == old(self).spec_operands(),
    {
        &mut self.flags
    }

    pub fn operands_mut(&mut self) -> (res: &mut OperandList)
        ensures
            res@ == old(self).spec_operands(),
            final(self).spec_operands() == final(res)@,
            final(self).spec_spec() == old(self).spec_spec(),
            final(self).spec_flags() == old(self).spec_flags(),
    {
        &mut self.operands
    }
}

} // verus!
