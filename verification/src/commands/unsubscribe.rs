use vstd::prelude::*;

use crate::cli::command::Command as ParsedCommand;
use crate::cli::spec;
use crate::client::RecvTimeoutError;
use crate::commands::CommandError;
use crate::mqtt::packet::{Pid, Unsubscribe};
use crate::text::strings_view;

verus! {

/// Seconds to wait for the Unsuback.
pub const UNSUBACK_TIMEOUT: u64 = 30;

/// No Unsuback came in time.
#[derive(Debug)]
pub struct UnsubackTimeoutError(pub RecvTimeoutError);

impl UnsubackTimeoutError {
    pub fn message(&self) -> (res: &'static str)
        ensures
            res@ == match self.0 {
                RecvTimeoutError::Timeout => "Timeout waiting for UNSUBACK."@,
                RecvTimeoutError::Disconnected => "Disconnected while waiting for UNSUBACK."@,
            },
    {
        match self.0 {
            RecvTimeoutError::Timeout => "Timeout waiting for UNSUBACK.",
            RecvTimeoutError::Disconnected => "Disconnected while waiting for UNSUBACK.",
        }
    }
}

/// Unsubscribe from topics.
pub fn unsubscribe() -> (res: spec::Command)
    ensures
        res.wf(),
        res.spec_name() == "unsubscribe"@,
        res.spec_description() == "Unsubscribe from one or more topics"@,
        res.spec_usage() == "{$name} topic1 [topic2 ...]"@,
        res.flag_views().len() == 0,
{
    let c = spec::Command::build("unsubscribe").set_description(
        "Unsubscribe from one or more topics",
    ).set_usage("{$name} topic1 [topic2 ...]");
    assert(c.flag_views() =~= Seq::empty());
    c
}

/// What building the Unsubscribe packet of the `unsubscribe` command gives.
pub open spec fn unsubscribe_result(command: &ParsedCommand, res: Result<Unsubscribe, CommandError>) -> bool {
    &&& command.operand_views().len() == 0 ==> (res matches Err(CommandError::Failed(m)) && m@
        == "Must provide at least one topic path to unsubscribe from."@)
    &&& command.operand_views().len() > 0 ==> (res matches Ok(u) && u.pid == Pid::spec_one()
        && strings_view(u.topics@) == command.operand_views())
}

/// The Unsubscribe packet of the `unsubscribe` command: identifier 1 and
/// the operands as topic paths. Fails without operands.
pub fn unsubscribe_request(command: &ParsedCommand) -> (res: Result<Unsubscribe, CommandError>)
    ensures
        unsubscribe_result(command, res),

{
    let operands = command.operands();
    if operands.len() == 0 {
        return Err(
            CommandError::Failed(
                String::from_str("Must provide at least one topic path to unsubscribe from."),
            ),
        );
    }
    let mut topics: Vec<String> = Vec::new();
    let mut i: usize = 0;
    while i < operands.len()
        invariant
            i <= operands@.len(),
            operands@ == command.spec_operands(),
            strings_view(topics@) == command.operand_views().take(i as int),
        decreases operands@.len() - i,
    {
        let ghost before = strings_view(topics@);
        let t = operands[i].value().to_owned();
        topics.push(t);
        assert(strings_view(topics@) =~= before.push(t@));
        assert(command.operand_views().take(i + 1) =~= command.operand_views().take(i as int).push(
            operands@[i as int]@,
        ));
        i = i + 1;
    }
    assert(command.operand_views().take(i as int) =~= command.operand_views());
    Ok(Unsubscribe { pid: Pid::new(), topics })
}

} // verus!
