use vstd::prelude::*;

use crate::text::{push_str, string_from_chars};

verus! {

/// A command name that the shell does not know.
#[derive(Debug)]
pub struct UnknownCommandError(pub String);

impl UnknownCommandError {
    pub open spec fn message_spec(&self) -> Seq<char> {
        "Error: unknown command "@ + self.0@
    }

    /// `Error: unknown command <name>`.
    pub fn message(&self) -> (res: String)
        ensures
            res@ == self.message_spec(),
    {
        let mut chars: Vec<char> = Vec::new();
        push_str(&mut chars, "Error: unknown command ");
        push_str(&mut chars, self.0.as_str());
        string_from_chars(&chars)
    }
}

} // verus!
