use vstd::prelude::*;

use crate::cli::spec::flag::Query;
use crate::text::{chars_of, string_from_chars};

verus! {

/// A flag that the command does not know.
#[derive(Debug)]
pub struct UnknownFlagError(pub Query);

/// A flag whose required argument is missing.
#[derive(Debug)]
pub struct FlagMissingArgError(pub Query);

/// `prefix`, the flag text and a closing quote.
fn quoted_flag(prefix: &str, q: &Query) -> (res: String)
    ensures
        res@ == prefix@ + q.to_text_spec() + seq!['\''],
{
    let mut chars = chars_of(prefix);
    let flag = q.to_text();
    let flag_chars = chars_of(flag.as_str());
    let ghost start = chars@;
    let mut i: usize = 0;
    while i < flag_chars.len()
        invariant
            i <= flag_chars@.len(),
            flag_chars@ == q.to_text_spec(),
            chars@ == start + flag_chars@.take(i as int),
        decreases flag_chars@.len() - i,
    {
        chars.push(flag_chars[i]);
        i = i + 1;
    }
    assert(flag_chars@.take(flag_chars@.len() as int) =~= flag_chars@);
    chars.push('\'');
    string_from_chars(&chars)
}

impl UnknownFlagError {
    /// `unrecognized flag '<flag>'`.
    pub fn message(&self) -> (res: String)
        ensures
            res@ == "unrecognized flag '"@ + self.0.to_text_spec() + seq!['\''],
    {
        quoted_flag("unrecognized flag '", &self.0)
    }
}

impl FlagMissingArgError {
    /// The message that the flag's argument is missing; it reads like the one
    /// of an unknown flag.
    pub fn message(&self) -> (res: String)
        ensures
            res@ == "unrecognzied flag '"@ + self.0.to_text_spec() + seq!['\''],
    {
        quoted_flag("unrecognzied flag '", &self.0)
    }
}

} // verus!
