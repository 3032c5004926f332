use vstd::prelude::*;

use crate::cli::command::Command as ParsedCommand;
use crate::cli::error::CliError;
use crate::cli::shell::Shell;
use crate::cli::spec;
use crate::cli::spec::command::error::UnknownCommandError;
use crate::command::value::ParseValueError;

pub mod connack;
pub mod connect;
pub mod disconnect;
pub mod ping;
pub mod publish;
pub mod run;
pub mod subscribe;
pub mod toggle_debug;
pub mod unsubscribe;
pub mod util;

verus! {

/// Why a command failed.
#[derive(Debug)]
pub enum CommandError {
    /// The command line was wrong.
    Cli(CliError),
    /// A flag argument or operand is not a value of the expected type.
    InvalidValue(ParseValueError),
    /// Any other failure, with its message.
    Failed(String),
}

/// Quit the command line interface.
pub fn exit() -> (res: spec::Command)
    ensures
        res.wf(),
        res.spec_name() == "exit"@,
        res.spec_description() == "Quit the command line interface"@,
        res.spec_usage() == "{$name}"@,
        res.flag_views().len() == 0,
{
    let c = spec::Command::build("exit").set_description("Quit the command line interface").set_usage(
        "{$name}",
    );
    assert(c.flag_views() =~= Seq::empty());
    c
}

/// Print the help of the shell or of one command.
pub fn help() -> (res: spec::Command)
    ensures
        res.wf(),
        res.spec_name() == "help"@,
        res.spec_description() == "Print this help message or print help for a specific command"@,
        res.spec_usage() == "{$name} [command_name]"@,
        res.flag_views().len() == 0,
{
    let c = spec::Command::build("help").set_description(
        "Print this help message or print help for a specific command",
    ).set_usage("{$name} [command_name]");
    assert(c.flag_views() =~= Seq::empty());
    c
}

/// What the `help` command gives for `command` in `shell`.
pub open spec fn help_result(command: &ParsedCommand, shell: &Shell, res: Result<String, CommandError>) -> bool {
    &&& command.operand_views().len() == 0 ==> (res matches Ok(s) && s@ == shell.help_spec())
    &&& command.operand_views().len() > 0 ==> {
        let name = command.operand_views()[0];
        &&& shell.spec_commands().contains_key(name) ==> (res matches Ok(s) && s@
            == shell.spec_commands()[name].help_spec())
        &&& !shell.spec_commands().contains_key(name) ==> (res matches Err(
            CommandError::Cli(CliError::UnknownCommand(e)),
        ) && e.0@ == name)
    }
}

/// What the `help` command prints: the help of the command named by its
/// first operand, or the shell help without operands.
pub fn help_text(command: &ParsedCommand, shell: &Shell) -> (res: Result<String, CommandError>)
    requires
        shell.wf(),
        forall|i: int| 0 <= i < shell.command_list().len() ==> #[trigger] shell.command_list()[i].help_fits(),
        forall|k: Seq<char>| #[trigger] shell.spec_commands().contains_key(k) ==> shell.spec_commands()[k].help_fits(),
    ensures
        help_result(command, shell, res),

{
    let operands = command.operands();
    if operands.len() > 0 {
        let name = operands[0].value();
        assert(command.operand_views()[0] == operands@[0]@);
        match shell.find_command_spec(name) {
            Some(c) => Ok(c.help()),
            None => Err(CommandError::Cli(CliError::UnknownCommand(UnknownCommandError(name.to_owned())))),
        }
    } else {
        Ok(shell.help())
    }
}

} // verus!
