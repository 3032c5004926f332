use vstd::prelude::*;

verus! {

/// Argument specification of a flag: no argument, an optional one or a
/// required one.
#[derive(Clone, Copy, Debug, PartialEq, Eq, Structural)]
pub enum Arg {
    NoArg,
    Optional,
    Required,
}

impl Default for Arg {
    /// A flag takes no argument unless told otherwise.
    fn default() -> (res: Arg)
        ensures
            res == Arg::NoArg,
    {
        Arg::NoArg
    }
}

} // verus!
