use vstd::prelude::*;

use crate::cli::command::Command as ParsedCommand;
use crate::cli::spec;
use crate::cli::spec::command::lemma_fresh_short;
use crate::cli::spec::flag::{FlagView, QueryView};
use crate::command::value::FromArg;
use crate::commands::connect::{flag_value, text_given, text_of};
use crate::commands::CommandError;
use crate::mqtt::packet::{Packet, Pid, Publish, QoS, QosPid};

verus! {

/// Times a packet is sent again before giving up.
pub const MAX_RETRIES: usize = 5;

/// Seconds to wait for an answer before sending again.
pub const RETRY_TIMEOUT: u64 = 20;

/// The flags of the `publish` command.
pub open spec fn publish_flags() -> Seq<FlagView> {
    seq![
        (("dup"@, 'd'), spec::Arg::NoArg, "Set dup field. Retransmissions of packets must have this set. (For debug purposes only.)"@),
        (("qos"@, 'q'), spec::Arg::Required, "Specify the QoS level to be associated with this message."@),
        (("retain"@, 'r'), spec::Arg::NoArg, "Tell the server it must retain this message."@),
    ]
}

/// Publish a message to a topic.
pub fn publish() -> (res: spec::Command)
    ensures
        res.wf(),
        res.spec_name() == "publish"@,
        res.spec_description() == "Publish a message to a specific topic path"@,
        res.spec_usage() == "{$name} {$flags} topic_path message"@,
        res.flag_views() == publish_flags(),
{
    let c = spec::Command::build("publish").set_description(
        "Publish a message to a specific topic path",
    ).set_usage("{$name} {$flags} topic_path message");
    assert(c.flag_views() =~= Seq::empty());
    proof { lemma_fresh_short(&c, "dup"@, 'd'); }
    let c = c.add_flag(
        "dup",
        'd',
        spec::Arg::NoArg,
        "Set dup field. Retransmissions of packets must have this set. (For debug purposes only.)",
    );
    proof { lemma_fresh_short(&c, "qos"@, 'q'); }
    let c = c.add_flag(
        "qos",
        'q',
        spec::Arg::Required,
        "Specify the QoS level to be associated with this message.",
    );
    proof { lemma_fresh_short(&c, "retain"@, 'r'); }
    let c = c.add_flag("retain", 'r', spec::Arg::NoArg, "Tell the server it must retain this message.");
    assert(c.flag_views() =~= publish_flags());
    c
}

/// The QoS level that `-q` asks for: 1 and 2 name their levels, any other
/// number means 0.
pub open spec fn publish_qos(n: u8) -> QoS {
    if n == 1 {
        QoS::AtLeastOnce
    } else if n == 2 {
        QoS::ExactlyOnce
    } else {
        QoS::AtMostOnce
    }
}

/// The QoS level together with the identifier 1 for levels above 0.
pub open spec fn qospid_for(qos: QoS) -> QosPid {
    match qos {
        QoS::AtMostOnce => QosPid::AtMostOnce,
        QoS::AtLeastOnce => QosPid::AtLeastOnce(Pid::spec_one()),
        QoS::ExactlyOnce => QosPid::ExactlyOnce(Pid::spec_one()),
    }
}

/// What building the Publish packet of the `publish` command gives.
pub open spec fn publish_result(command: &ParsedCommand, res: Result<Publish, CommandError>) -> bool {
    ({
        let q = if command.has_flag(QueryView::Short('q')) {
            <u8 as FromArg>::parses(text_of(command, 'q'))
        } else {
            Some(0u8)
        };
        let ops = command.operand_views();
        match q {
            None => res matches Err(CommandError::InvalidValue(_)),
            Some(n) => if ops.len() < 2 {
                res matches Err(CommandError::Failed(m)) && m@ == if ops.len() == 0 {
                    "need to specify topic to publish."@
                } else {
                    "need to specify message to publish"@
                }
            } else {
                res matches Ok(p) && {
                    &&& !p.dup
                    &&& p.qospid == qospid_for(publish_qos(n))
                    &&& !p.retain
                    &&& p.topic_name@ == ops[0]
                    &&& p.payload@ == vstd::utf8::encode_utf8(ops[1])
                }
            },
        }
    })
}

/// The level of a published message follows `-q` exactly: without `-q`, or
/// with `-q 0`, the message goes at QoS 0; only `-q 1` makes it QoS 1 and
/// only `-q 2` makes it QoS 2.
pub proof fn lemma_publish_level(command: &ParsedCommand, res: Result<Publish, CommandError>)
    requires
        publish_result(command, res),
    ensures
        res matches Ok(p) ==> {
            let given = command.has_flag(QueryView::Short('q'));
            let q = <u8 as FromArg>::parses(text_of(command, 'q'));
            &&& !given ==> p.qospid == QosPid::AtMostOnce
            &&& (given && q == Some(0u8)) ==> p.qospid == QosPid::AtMostOnce
            &&& (p.qospid is AtLeastOnce) <==> (given && q == Some(1u8))
            &&& (p.qospid is ExactlyOnce) <==> (given && q == Some(2u8))
        },
{
}

/// The `publish` command sends its first operand as the topic and its
/// second as the message, neither duplicated nor retained, with identifier
/// 1 above QoS 0; it fails exactly when `-q` is not a number or an operand
/// is missing.
pub proof fn lemma_publish_fields(command: &ParsedCommand, res: Result<Publish, CommandError>)
    requires
        publish_result(command, res),
    ensures
        ({
            let ops = command.operand_views();
            let q_reads = !command.has_flag(QueryView::Short('q')) || <u8 as FromArg>::parses(
                text_of(command, 'q'),
            ) is Some;
            &&& res is Ok <==> (q_reads && ops.len() >= 2)
            &&& res matches Ok(p) ==> {
                &&& p.topic_name@ == ops[0]
                &&& p.payload@ == vstd::utf8::encode_utf8(ops[1])
                &&& !p.dup
                &&& !p.retain
                &&& p.qospid.spec_pid() matches Some(x) ==> x@ == 1
            }
        }),
{
    Pid::lemma_one_value();
}

/// The Publish packet of the `publish` command: the first operand is the
/// topic, the second the message; the level comes from `-q`. Fails if `-q`
/// is not a number or an operand is missing.
pub fn publish_request(command: &ParsedCommand) -> (res: Result<Publish, CommandError>)
    requires
        text_given(command, 'q'),
    ensures
        publish_result(command, res),

{
    let n: u8 = match flag_value::<u8>(command, 'q') {
        Ok(Some(v)) => v,
        Ok(None) => 0,
        Err(e) => {
            return Err(CommandError::InvalidValue(e));
        },
    };
    let qos = if n == 1 {
        QoS::AtLeastOnce
    } else if n == 2 {
        QoS::ExactlyOnce
    } else {
        QoS::AtMostOnce
    };
    let operands = command.operands();
    if operands.len() < 1 {
        return Err(CommandError::Failed(String::from_str("need to specify topic to publish.")));
    }
    if operands.len() < 2 {
        return Err(CommandError::Failed(String::from_str("need to specify message to publish")));
    }
    assert(command.operand_views()[0] == operands@[0]@);
    assert(command.operand_views()[1] == operands@[1]@);
    let topic = operands[0].value();
    let message = operands[1].value();
    let pid = Pid::new();
    let qospid = match qos {
        QoS::AtMostOnce => QosPid::AtMostOnce,
        QoS::AtLeastOnce => QosPid::AtLeastOnce(pid),
        QoS::ExactlyOnce => QosPid::ExactlyOnce(pid),
    };
    Ok(
        Publish {
            dup: false,
            qospid,
            retain: false,
            topic_name: topic.to_owned(),
            payload: vstd::slice::slice_to_vec(message.as_bytes()),
        },
    )
}

/// The Publish sent again when its acknowledgement does not come: the same
/// packet with `dup` set.
pub fn resend_of(p: &Publish) -> (res: Publish)
    ensures
        res.dup,
        res.qospid == p.qospid,
        res.retain == p.retain,
        res.topic_name@ == p.topic_name@,
        res.payload@ == p.payload@,
{
    Publish {
        dup: true,
        qospid: p.qospid,
        retain: p.retain,
        topic_name: p.topic_name.clone(),
        payload: vstd::slice::slice_to_vec(p.payload.as_slice()),
    }
}

/// What is printed when a QoS 1 publish gets no Puback after the allowed
/// retransmissions.
pub fn give_up_message() -> (res: &'static str)
    ensures
        res@ == "Timed out waiting for broker response for publish command. Aborting."@,
{
    "Timed out waiting for broker response for publish command. Aborting."
}

/// What ended a wait for an answer from the broker.
#[derive(Debug)]
pub enum WaitEvent {
    /// A packet arrived.
    Received(Packet),
    /// Nothing arrived in time.
    Timeout,
    /// The connection is gone.
    Disconnected,
}

/// What to do next while waiting for an acknowledgement.
#[derive(Clone, Copy, Debug, PartialEq, Eq, Structural)]
pub enum WaitStep {
    /// Wait again.
    Wait,
    /// Send the last packet again (a Publish with `dup` set), then wait.
    Resend,
    /// Send the Pubrel of the exchange, then wait.
    SendPubrel,
    /// The exchange is complete.
    Done,
    /// Give up: no answer after the allowed retransmissions.
    GiveUp,
    /// The connection is gone.
    Failed,
}

/// Waiting for the Puback of a QoS 1 publish.
#[derive(Clone, Copy, Debug, PartialEq, Eq, Structural)]
pub struct AtLeastOnceWait {
    pub pid: Pid,
    pub retries: usize,
    pub max_retries: usize,
}

impl AtLeastOnceWait {
    pub fn new(pid: Pid, max_retries: usize) -> (res: AtLeastOnceWait)
        ensures
            res.pid == pid,
            res.retries == 0,
            res.max_retries == max_retries,
    {
        AtLeastOnceWait { pid, retries: 0, max_retries }
    }

    /// The Puback with the right identifier completes the exchange; other
    /// packets are ignored; when nothing comes the publish is sent again,
    /// at most `max_retries` times.
    pub fn step(&mut self, event: WaitEvent) -> (res: WaitStep)
        requires
            old(self).retries <= old(self).max_retries,
        ensures
            final(self).pid == old(self).pid,
            final(self).max_retries == old(self).max_retries,
            final(self).retries <= final(self).max_retries,
            match event {
                WaitEvent::Received(p) => final(self).retries == old(self).retries && if p
                    == Packet::Puback(old(self).pid) {
                    res == WaitStep::Done
                } else {
                    res == WaitStep::Wait
                },
                _ => if old(self).retries >= old(self).max_retries {
                    res == WaitStep::GiveUp && final(self).retries == old(self).retries
                } else {
                    res == WaitStep::Resend && final(self).retries == old(self).retries + 1
                },
            },
    {
        match event {
            WaitEvent::Received(Packet::Puback(resp)) => {
                if resp == self.pid {
                    WaitStep::Done
                } else {
                    WaitStep::Wait
                }
            },
            WaitEvent::Received(_) => WaitStep::Wait,
            _ => {
                if self.retries >= self.max_retries {
                    WaitStep::GiveUp
                } else {
                    self.retries = self.retries + 1;
                    WaitStep::Resend
                }
            },
        }
    }
}

/// Where a QoS 2 publish stands.
#[derive(Clone, Copy, Debug, PartialEq, Eq, Structural)]
pub enum ExactlyOncePhase {
    /// The Publish is out; waiting for the Pubrec.
    PublishSent,
    /// The Pubrel is out; waiting for the Pubcomp.
    PubrelSent,
}

/// A QoS 2 publish in flight. In each phase the packet is sent again on
/// every timeout while fewer than `max_retries - retries` waits have passed;
/// an answer that is not the expected one adds the waits it took to
/// `retries` and the waiting goes on.
#[derive(Clone, Copy, Debug, PartialEq, Eq, Structural)]
pub struct ExactlyOnce {
    pub phase: ExactlyOncePhase,
    pub pid: Pid,
    pub retries: usize,
    pub attempt: usize,
    pub max_retries: usize,
}

impl ExactlyOnce {
    pub fn new(pid: Pid, max_retries: usize) -> (res: ExactlyOnce)
        ensures
            res.phase == ExactlyOncePhase::PublishSent,
            res.pid == pid,
            res.retries == 0,
            res.attempt == 0,
            res.max_retries == max_retries,
    {
        ExactlyOnce { phase: ExactlyOncePhase::PublishSent, pid, retries: 0, attempt: 0, max_retries }
    }

    pub open spec fn wf(&self) -> bool {
        self.retries + self.attempt <= self.max_retries
    }

    /// Whether another wait is allowed in this phase; if not, the exchange
    /// fails with a timeout.
    pub fn can_wait(&self) -> (res: bool)
        requires
            self.wf(),
        ensures
            res == (self.attempt < self.max_retries - self.retries),
    {
        self.attempt < self.max_retries - self.retries
    }

    /// The message of the failure when no more waits are allowed.
    pub fn timeout_message(&self) -> (res: &'static str)
        ensures
            res@ == match self.phase {
                ExactlyOncePhase::PublishSent => "Timeout waiting on pubrec."@,
                ExactlyOncePhase::PubrelSent => "Timeout waiting on pubcomp."@,
            },
    {
        match self.phase {
            ExactlyOncePhase::PublishSent => "Timeout waiting on pubrec.",
            ExactlyOncePhase::PubrelSent => "Timeout waiting on pubcomp.",
        }
    }

    /// Act on what ended a wait (allowed by `can_wait`).
    pub fn step(&mut self, event: WaitEvent) -> (res: WaitStep)
        requires
            old(self).wf(),
            old(self).attempt < old(self).max_retries - old(self).retries,
        ensures
            final(self).wf(),
            final(self).pid == old(self).pid,
            final(self).max_retries == old(self).max_retries,
            match event {
                WaitEvent::Timeout => {
                    &&& res == WaitStep::Resend
                    &&& final(self).phase == old(self).phase
                    &&& final(self).retries == old(self).retries
                    &&& final(self).attempt == old(self).attempt + 1
                },
                WaitEvent::Disconnected => res == WaitStep::Failed && *final(self) == *old(self),
                WaitEvent::Received(p) => match old(self).phase {
                    ExactlyOncePhase::PublishSent => if p == Packet::Pubrec(old(self).pid) {
                        &&& res == WaitStep::SendPubrel
                        &&& final(self).phase == ExactlyOncePhase::PubrelSent
                        &&& final(self).retries == 0
                        &&& final(self).attempt == 0
                    } else {
                        &&& res == WaitStep::Wait
                        &&& final(self).phase == old(self).phase
                        &&& final(self).retries == old(self).retries + old(self).attempt
                        &&& final(self).attempt == 0
                    },
                    ExactlyOncePhase::PubrelSent => if p == Packet::Pubcomp(old(self).pid) {
                        res == WaitStep::Done
                    } else {
                        &&& res == WaitStep::Wait
                        &&& final(self).phase == old(self).phase
                        &&& final(self).retries == old(self).retries + old(self).attempt
                        &&& final(self).attempt == 0
                    },
                },
            },
    {
        match event {
            WaitEvent::Timeout => {
                self.attempt = self.attempt + 1;
                WaitStep::Resend
            },
            WaitEvent::Disconnected => WaitStep::Failed,
            WaitEvent::Received(p) => {
                let expected_match = match (&self.phase, &p) {
                    (ExactlyOncePhase::PublishSent, Packet::Pubrec(resp)) => *resp == self.pid,
                    (ExactlyOncePhase::PubrelSent, Packet::Pubcomp(resp)) => *resp == self.pid,
                    _ => false,
                };
                if expected_match {
                    match self.phase {
                        ExactlyOncePhase::PublishSent => {
                            self.phase = ExactlyOncePhase::PubrelSent;
                            self.retries = 0;
                            self.attempt = 0;
                            WaitStep::SendPubrel
                        },
                        ExactlyOncePhase::PubrelSent => WaitStep::Done,
                    }
                } else {
                    self.retries = self.retries + self.attempt;
                    self.attempt = 0;
                    WaitStep::Wait
                }
            },
        }
    }
}

} // verus!
