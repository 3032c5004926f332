use vstd::prelude::*;

use crate::command::operand::OperandList;
use crate::text::{decimal, push_decimal, push_str, string_from_chars};

verus! {

/// A command received fewer operands than it needs: the operands it got and
/// the number expected.
#[derive(Debug)]
pub struct MissingOperandError(pub OperandList, pub usize);

impl MissingOperandError {
    pub open spec fn message_spec(&self) -> Seq<char> {
        "not enough operands provided. Received "@ + decimal(self.0@.len()) + ", expected "@
            + decimal(self.1 as nat)
    }

    /// `not enough operands provided. Received <n>, expected <m>`.
    pub fn message(&self) -> (res: String)
        ensures
            res@ == self.message_spec(),
    {
        let mut chars: Vec<char> = Vec::new();
        push_str(&mut chars, "not enough operands provided. Received ");
        push_decimal(&mut chars, self.0.len());
        push_str(&mut chars, ", expected ");
        push_decimal(&mut chars, self.1);
        string_from_chars(&chars)
    }
}

} // verus!
