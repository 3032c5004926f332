use vstd::prelude::*;

verus! {

/// What identifies a flag, in a command specification and in a parsed
/// command: its long name together with its one-letter short form.
#[derive(Debug, Hash)]
pub struct Id {
    name: String,
    short: char,
}

impl View for Id {
    type V = (Seq<char>, char);

    closed spec fn view(&self) -> (Seq<char>, char) {
        (self.name@, self.short)
    }
}

impl Id {
    pub fn new(name: &str, short: char) -> (res: Id)
        ensures
            res@ == (name@, short),
    {
        Id { name: name.to_owned(), short }
    }

    pub fn name(&self) -> (res: &str)
        ensures
            res@ == self@.0,
    {
        self.name.as_str()
    }

    pub fn short(&self) -> (res: char)
        ensures
            res == self@.1,
    {
        self.short
    }
}

impl Clone for Id {
    fn clone(&self) -> (res: Self)
        ensures
            res@ == self@,
    {
        Id { name: self.name.clone(), short: self.short }
    }
}

/// Two ids are equal when both the name and the short form agree.
impl PartialEq for Id {
    fn eq(&self, other: &Self) -> (res: bool) {
        self.name == other.name && self.short == other.short
    }
}

impl vstd::std_specs::cmp::PartialEqSpecImpl for Id {
    open spec fn obeys_eq_spec() -> bool {
        true
    }

    open spec fn eq_spec(&self, other: &Id) -> bool {
        self@ == other@
    }
}

impl Eq for Id {
}

} // verus!
