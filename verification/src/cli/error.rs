use vstd::prelude::*;

use crate::cli::command::operand::error::MissingOperandError;
use crate::cli::spec::command::error::UnknownCommandError;
use crate::cli::spec::flag::error::{FlagMissingArgError, UnknownFlagError};

verus! {

/// Errors of the command line shell.
#[derive(Debug)]
pub enum CliError {
    UnknownCommand(UnknownCommandError),
    UnknownFlag(UnknownFlagError),
    FlagMissingArg(FlagMissingArgError),
    MissingOperand(MissingOperandError),
}

impl CliError {
    /// The message of the underlying error.
    pub fn message(&self) -> (res: String)
        ensures
            match self {
                CliError::UnknownCommand(e) => res@ == e.message_spec(),
                CliError::UnknownFlag(e) => res@ == "unrecognized flag '"@ + e.0.to_text_spec() + seq!['\''],
                CliError::FlagMissingArg(e) => res@ == "unrecognzied flag '"@ + e.0.to_text_spec() + seq!['\''],
                CliError::MissingOperand(e) => res@ == e.message_spec(),
            },
    {
        match self {
            CliError::UnknownCommand(e) => e.message(),
            CliError::UnknownFlag(e) => e.message(),
            CliError::FlagMissingArg(e) => e.message(),
            CliError::MissingOperand(e) => e.message(),
        }
    }
}

} // verus!
