use vstd::prelude::*;

use crate::cli::spec;
use crate::cli::spec::flag::{lookup_result, Id, IdSet, Identified, Query};
use crate::cli::spec::flag::FlagView;
use crate::command::arg::{Arg, ArgView};

verus! {

/// A flag as given on a command line: its specification and the argument
/// that came with it.
#[derive(Debug)]
pub struct Flag<'a> {
    spec: &'a spec::Flag,
    arg: Arg,
}

/// The flags of a parsed command; no flag occurs twice.
pub type FlagSet<'a> = IdSet<Flag<'a>>;

impl<'a> Flag<'a> {
    pub fn new(spec: &'a spec::Flag, arg: Arg) -> (res: Flag<'a>)
        ensures
            *res.spec_spec() == *spec,
            res.spec_arg() == arg,
    {
        Flag { spec, arg }
    }

    pub closed spec fn spec_spec(&self) -> &'a spec::Flag {
        self.spec
    }

    pub closed spec fn spec_arg(&self) -> Arg {
        self.arg
    }

    /// The flag's specification and the argument given with it.
    pub open spec fn entry(&self) -> (FlagView, ArgView) {
        (self.spec_spec()@, self.spec_arg()@)
    }

    pub fn spec(&self) -> (res: &'a spec::Flag)
        ensures
            *res == *self.spec_spec(),
    {
        self.spec
    }

    pub fn arg(&self) -> (res: &Arg)
        ensures
            *res == self.spec_arg(),
    {
        &self.arg
    }
}

impl<'a> Identified for Flag<'a> {
    open spec fn spec_id(&self) -> (Seq<char>, char) {
        self.spec_spec()@.0
    }

    fn id_of(&self) -> (res: &Id) {
        self.spec.id()
    }
}

/// Flags are equal when their specifications have the same id.
impl<'a> PartialEq for Flag<'a> {
    fn eq(&self, other: &Self) -> (res: bool) {
        *self.spec.id() == *other.spec.id()
    }
}

impl<'a> vstd::std_specs::cmp::PartialEqSpecImpl for Flag<'a> {
    open spec fn obeys_eq_spec() -> bool {
        true
    }

    open spec fn eq_spec(&self, other: &Flag<'a>) -> bool {
        self.spec_id() == other.spec_id()
    }
}

/// Find the given flag that `needle` designates.
pub fn query<'a, 'b>(needle: &Query, haystack: &'b FlagSet<'a>) -> (res: Option<&'b Flag<'a>>)
    ensures
        lookup_result(haystack, needle@, res),
{
    haystack.find(needle)
}

} // verus!
