use vstd::prelude::*;
use vstd::std_specs::convert::FromSpec;

use crate::cli::error::CliError;
use crate::command::value::{FromArg, ParseValueError};

verus! {

/// The argument given to a flag on the command line; parallel to the
/// argument specification of the flag.
#[derive(Debug, PartialEq, Eq)]
pub enum Arg {
    NoArg,
    Optional(Option<String>),
    Required(String),
}

/// What a flag argument holds.
pub enum ArgView {
    NoArg,
    Optional(Option<Seq<char>>),
    Required(Seq<char>),
}

impl View for Arg {
    type V = ArgView;

    open spec fn view(&self) -> ArgView {
        match self {
            Arg::NoArg => ArgView::NoArg,
            Arg::Optional(v) => ArgView::Optional(
                match v {
                    Some(s) => Some(s@),
                    None => None,
                },
            ),
            Arg::Required(s) => ArgView::Required(s@),
        }
    }
}

impl Arg {
    /// The text of the argument, if one was given.
    pub open spec fn spec_raw(&self) -> Option<Seq<char>> {
        match self {
            Arg::NoArg => None,
            Arg::Optional(v) => match v {
                Some(s) => Some(s@),
                None => None,
            },
            Arg::Required(s) => Some(s@),
        }
    }

    /// An optional argument slot that holds no value.
    pub open spec fn is_empty_optional(&self) -> bool {
        self matches Arg::Optional(None)
    }

    /// The text of the argument, if one was given.
    pub fn raw(&self) -> (res: Option<String>)
        ensures
            match res {
                Some(s) => self.spec_raw() == Some(s@),
                None => self.spec_raw() is None,
            },
    {
        match self {
            Arg::Optional(val) => match val {
                Some(s) => Some(s.clone()),
                None => None,
            },
            Arg::Required(s) => Some(s.clone()),
            _ => None,
        }
    }

    /// The string held, if any.
    pub open spec fn spec_string(&self) -> Option<String> {
        match self {
            Arg::NoArg => None,
            Arg::Optional(v) => *v,
            Arg::Required(s) => Some(*s),
        }
    }

    /// The argument converted with `From<String>`; `None` without an
    /// argument. An optional slot must hold a value.
    pub fn get<T: From<String>>(&self) -> (res: Result<Option<T>, CliError>)
        requires
            !self.is_empty_optional(),
        ensures
            self is NoArg ==> res matches Ok(None),
            !(self is NoArg) ==> (res matches Ok(Some(t)) && (T::obeys_from_spec() ==> t
                == T::from_spec(self.spec_string().unwrap()))),
    {
        match self {
            Arg::Optional(val) => match val {
                Some(s) => Ok(Some(T::from(s.clone()))),
                None => Ok(None),
            },
            Arg::Required(s) => Ok(Some(T::from(s.clone()))),
            _ => Ok(None),
        }
    }

    /// The argument read as a `T`; `Ok(None)` without an argument. An
    /// optional slot must hold a value.
    pub fn get_as<T: FromArg>(&self) -> (res: Result<Option<T>, ParseValueError>)
        requires
            !self.is_empty_optional(),
        ensures
            self is NoArg ==> res matches Ok(None),
            !(self is NoArg) ==> match res {
                Ok(Some(v)) => T::parses(self.spec_raw().unwrap()) == Some(v@),
                Ok(None) => false,
                Err(_) => T::parses(self.spec_raw().unwrap()) is None,
            },
    {
        match self {
            Arg::Optional(val) => match val {
                Some(s) => match T::from_arg(s.as_str()) {
                    Ok(v) => Ok(Some(v)),
                    Err(e) => Err(e),
                },
                None => Ok(None),
            },
            Arg::Required(s) => match T::from_arg(s.as_str()) {
                Ok(v) => Ok(Some(v)),
                Err(e) => Err(e),
            },
            _ => Ok(None),
        }
    }
}

impl Default for Arg {
    /// No argument.
    fn default() -> (res: Arg)
        ensures
            res is NoArg,
    {
        Arg::NoArg
    }
}

impl Clone for Arg {
    fn clone(&self) -> (res: Self)
        ensures
            res.spec_raw() == self.spec_raw(),
            res is NoArg <==> self is NoArg,
            res is Optional <==> self is Optional,
            res is Required <==> self is Required,
    {
        match self {
            Arg::NoArg => Arg::NoArg,
            Arg::Optional(v) => Arg::Optional(
                match v {
                    Some(s) => Some(s.clone()),
                    None => None,
                },
            ),
            Arg::Required(s) => Arg::Required(s.clone()),
        }
    }
}

} // verus!
