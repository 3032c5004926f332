use vstd::prelude::*;

use crate::command::value::{FromArg, ParseValueError};

verus! {

/// An argument passed to a command to be operated upon.
#[derive(Debug)]
pub struct Operand {
    value: String,
}

/// The operands of a command, in the order given.
pub type OperandList = Vec<Operand>;

impl View for Operand {
    type V = Seq<char>;

    closed spec fn view(&self) -> Seq<char> {
        self.value@
    }
}

impl Operand {
    pub fn new(value: &str) -> (res: Operand)
        ensures
            res@ == value@,
    {
        Operand { value: value.to_owned() }
    }

    pub fn value(&self) -> (res: &str)
        ensures
            res@ == self@,
    {
        self.value.as_str()
    }

    /// The operand read as a `T`.
    pub fn get_as<T: FromArg>(&self) -> (res: Result<T, ParseValueError>)
        ensures
            match res {
                Ok(v) => T::parses(self@) == Some(v@),
                Err(_) => T::parses(self@) is None,
            },
    {
        T::from_arg(self.value.as_str())
    }
}

impl Clone for Operand {
    fn clone(&self) -> (res: Self)
        ensures
            res@ == self@,
    {
        Operand { value: self.value.clone() }
    }
}

} // verus!
