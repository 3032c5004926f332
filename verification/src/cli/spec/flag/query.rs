use vstd::prelude::*;

use crate::cli::spec::flag::{lookup_result, Flag, FlagSet};

verus! {

/// Designates a flag by its long name or by its short form.
#[derive(Debug)]
pub enum Query {
    Name(String),
    Short(char),
}

/// What a query designates a flag by.
pub enum QueryView {
    Name(Seq<char>),
    Short(char),
}

impl View for Query {
    type V = QueryView;

    open spec fn view(&self) -> QueryView {
        match self {
            Query::Name(s) => QueryView::Name(s@),
            Query::Short(c) => QueryView::Short(*c),
        }
    }
}

impl Query {
    /// The flag as typed on the command line: `--name` or `-c`.
    pub open spec fn to_text_spec(&self) -> Seq<char> {
        match self {
            Query::Name(s) => seq!['-', '-'] + s@,
            Query::Short(c) => seq!['-', *c],
        }
    }

    /// The flag as typed on the command line (what `Display` shows).
    pub fn to_text(&self) -> (res: String)
        ensures
            res@ == self.to_text_spec(),
    {
        let mut chars: Vec<char> = Vec::new();
        chars.push('-');
        match self {
            Query::Name(s) => {
                chars.push('-');
                let name = crate::text::chars_of(s.as_str());
                let mut i: usize = 0;
                while i < name.len()
                    invariant
                        i <= name@.len(),
                        name@ == s@,
                        chars@ == seq!['-', '-'] + name@.take(i as int),
                    decreases name@.len() - i,
                {
                    chars.push(name[i]);
                    i = i + 1;
                }
                assert(name@.take(name@.len() as int) =~= name@);
            },
            Query::Short(c) => {
                chars.push(*c);
            },
        }
        crate::text::string_from_chars(&chars)
    }
}

/// Find the flag specification that `needle` designates.
pub fn query_flag_spec<'a>(needle: &Query, haystack: &'a FlagSet) -> (res: Option<&'a Flag>)
    ensures
        lookup_result(haystack, needle@, res),
{
    haystack.find(needle)
}

} // verus!
