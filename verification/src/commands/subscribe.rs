use vstd::prelude::*;

use crate::cli::command::Command as ParsedCommand;
use crate::cli::spec;
use crate::client::RecvTimeoutError;
use crate::commands::CommandError;
use crate::commands::publish::{WaitEvent, WaitStep};
use crate::mqtt::packet::{
    Packet, Pid, QoS, QosPid, Suback, Subscribe, SubscribeReturnCodes, SubscribeTopic, Unsubscribe,
};
use crate::text::strings_view;

verus! {

/// Seconds between checks for a Ctrl-c while waiting for messages.
pub const POLL_INTERVAL: u64 = 1;

/// Seconds to wait for the Unsuback.
pub const UNSUBACK_TIMEOUT: u64 = 30;

/// No Unsuback came in time after a subscription ended.
#[derive(Debug)]
pub struct UnsubAckTimeoutError(pub RecvTimeoutError);

impl UnsubAckTimeoutError {
    pub fn message(&self) -> (res: &'static str)
        ensures
            res@ == match self.0 {
                RecvTimeoutError::Timeout => "Timeout waiting for UNSUBACK."@,
                RecvTimeoutError::Disconnected => "Disconnected while waiting for UNSUBACK."@,
            },
    {
        match self.0 {
            RecvTimeoutError::Timeout => "Timeout waiting for UNSUBACK.",
            RecvTimeoutError::Disconnected => "Disconnected while waiting for UNSUBACK.",
        }
    }
}

/// Subscribe to topics and print what is published on them until Ctrl-c.
pub fn subscribe() -> (res: spec::Command)
    ensures
        res.wf(),
        res.spec_name() == "subscribe"@,
        res.spec_description()
            == "Subscribe to one or more topics from broker; Blocks the console until Ctrl-c is pressed"@,
        res.spec_usage() == "{$name} topic1 [topic2 ...]"@,
        res.flag_views().len() == 0,
{
    let c = spec::Command::build("subscribe").set_description(
        "Subscribe to one or more topics from broker; Blocks the console until Ctrl-c is pressed",
    ).set_usage("{$name} topic1 [topic2 ...]");
    assert(c.flag_views() =~= Seq::empty());
    c
}

/// The topic filters of the operands, all at QoS 0.
pub fn operand_topics(command: &ParsedCommand) -> (res: Vec<SubscribeTopic>)
    ensures
        res@.len() == command.operand_views().len(),
        forall|i: int|
            0 <= i < res@.len() ==> (#[trigger] res@[i]).topic_path@ == command.operand_views()[i]
                && res@[i].qos == QoS::AtMostOnce,
{
    let operands = command.operands();
    let mut topics: Vec<SubscribeTopic> = Vec::new();
    let mut i: usize = 0;
    while i < operands.len()
        invariant
            i <= operands@.len(),
            operands@ == command.spec_operands(),
            topics@.len() == i,
            forall|j: int|
                0 <= j < i ==> (#[trigger] topics@[j]).topic_path@ == command.operand_views()[j]
                    && topics@[j].qos == QoS::AtMostOnce,
        decreases operands@.len() - i,
    {
        topics.push(SubscribeTopic { topic_path: operands[i].value().to_owned(), qos: QoS::AtMostOnce });
        i = i + 1;
    }
    topics
}

/// What building the Subscribe packet of the `subscribe` command gives.
pub open spec fn subscribe_result(command: &ParsedCommand, res: Result<Subscribe, CommandError>) -> bool {
    &&& command.operand_views().len() == 0 ==> (res matches Err(CommandError::Failed(m)) && m@
        == "Must provide at least one topic path to subscribe to."@)
    &&& command.operand_views().len() > 0 ==> (res matches Ok(s) && s.pid == Pid::spec_one()
        && s.topics@.len() == command.operand_views().len() && forall|i: int|
        0 <= i < s.topics@.len() ==> (#[trigger] s.topics@[i]).topic_path@
            == command.operand_views()[i] && s.topics@[i].qos == QoS::AtMostOnce)
}

/// The `subscribe` command subscribes, under identifier 1, to each operand
/// in order at QoS 0, and fails exactly when there is no operand.
pub proof fn lemma_subscribe_topics(command: &ParsedCommand, res: Result<Subscribe, CommandError>)
    requires
        subscribe_result(command, res),
    ensures
        res is Ok <==> command.operand_views().len() > 0,
        res matches Ok(s) ==> {
            &&& s.pid@ == 1
            &&& s.topics@.len() == command.operand_views().len()
            &&& forall|i: int| 0 <= i < s.topics@.len() ==> (#[trigger] s.topics@[i]).qos == QoS::AtMostOnce
                && s.topics@[i].topic_path@ == command.operand_views()[i]
        },
{
    Pid::lemma_one_value();
}

/// The Unsubscribe that ends a subscription carries its identifier and its
/// topic paths, in order.
pub proof fn lemma_unsubscribe_matches_subscribe(subscription: Subscribe, u: Unsubscribe)
    requires
        ends_subscription(subscription, u),
    ensures
        u.pid == subscription.pid,
        u.topics@.len() == subscription.topics@.len(),
        forall|i: int| 0 <= i < u.topics@.len() ==> (#[trigger] u.topics@[i])@ == subscription.topics@[i].topic_path@,
{
    let paths = subscription.topics@.map_values(|t: SubscribeTopic| t.topic_path@);
    assert(strings_view(u.topics@).len() == u.topics@.len());
    assert(paths.len() == subscription.topics@.len());
    assert forall|i: int| 0 <= i < u.topics@.len() implies (#[trigger] u.topics@[i])@ == subscription.topics@[i].topic_path@ by {
        assert(strings_view(u.topics@)[i] == u.topics@[i]@);
        assert(paths[i] == subscription.topics@[i].topic_path@);
    }
}

/// The Subscribe packet of the `subscribe` command: identifier 1 and one
/// QoS 0 filter per operand. Fails without operands.
pub fn subscribe_request(command: &ParsedCommand) -> (res: Result<Subscribe, CommandError>)
    ensures
        subscribe_result(command, res),

{
    if command.operands().len() == 0 {
        return Err(
            CommandError::Failed(
                String::from_str("Must provide at least one topic path to subscribe to."),
            ),
        );
    }
    Ok(Subscribe { pid: Pid::new(), topics: operand_topics(command) })
}

/// The answer that a published message calls for from a subscriber: none at
/// QoS 0, a Puback at QoS 1, a Pubrec (then the Pubrel/Pubcomp exchange) at
/// QoS 2.
pub fn publish_answer(qospid: QosPid) -> (res: Option<Packet>)
    ensures
        res == match qospid {
            QosPid::AtMostOnce => None,
            QosPid::AtLeastOnce(pid) => Some(Packet::Puback(pid)),
            QosPid::ExactlyOnce(pid) => Some(Packet::Pubrec(pid)),
        },
{
    match qospid {
        QosPid::AtMostOnce => None,
        QosPid::AtLeastOnce(pid) => Some(Packet::Puback(pid)),
        QosPid::ExactlyOnce(pid) => Some(Packet::Pubrec(pid)),
    }
}

/// What a subscriber does before its next wait in a QoS 2 exchange.
#[derive(Clone, Copy, Debug, PartialEq, Eq, Structural)]
pub enum NextWait {
    /// Wait for the Pubrel.
    Receive,
    /// No Pubrel came after the allowed waits: fail.
    TimedOut,
    /// Send the Pubcomp: the exchange is over.
    Complete,
}

/// A subscriber's side of a QoS 2 exchange, after it sent the Pubrec: it
/// waits for the Pubrel with identifier `pid`, sending the Pubrec again on
/// each timeout. Each round allows `max_retries - retries` waits; an answer
/// that is not the Pubrel adds the waits it took to `retries` and starts a
/// new round; once no waits are left at the start of a round the exchange
/// is completed all the same.
#[derive(Clone, Copy, Debug, PartialEq, Eq, Structural)]
pub struct ReceiveExactlyOnce {
    pub pid: Pid,
    pub retries: usize,
    pub attempt: usize,
    pub max_retries: usize,
}

impl ReceiveExactlyOnce {
    pub fn new(pid: Pid, max_retries: usize) -> (res: ReceiveExactlyOnce)
        ensures
            res.pid == pid,
            res.retries == 0,
            res.attempt == 0,
            res.max_retries == max_retries,
    {
        ReceiveExactlyOnce { pid, retries: 0, attempt: 0, max_retries }
    }

    pub open spec fn wf(&self) -> bool {
        self.retries + self.attempt <= self.max_retries
    }

    /// What to do before the next wait.
    pub fn next(&self) -> (res: NextWait)
        requires
            self.wf(),
        ensures
            res == if self.attempt == 0 && self.max_retries - self.retries == 0 {
                NextWait::Complete
            } else if self.attempt >= self.max_retries - self.retries {
                NextWait::TimedOut
            } else {
                NextWait::Receive
            },
    {
        let left = self.max_retries - self.retries;
        if self.attempt == 0 && left == 0 {
            NextWait::Complete
        } else if self.attempt >= left {
            NextWait::TimedOut
        } else {
            NextWait::Receive
        }
    }

    /// Act on what ended a wait that `next` allowed.
    pub fn step(&mut self, event: WaitEvent) -> (res: WaitStep)
        requires
            old(self).wf(),
            old(self).attempt < old(self).max_retries - old(self).retries,
        ensures
            final(self).wf(),
            final(self).pid == old(self).pid,
            final(self).max_retries == old(self).max_retries,
            match event {
                WaitEvent::Timeout => res == WaitStep::Resend && final(self).retries == old(
                    self,
                ).retries && final(self).attempt == old(self).attempt + 1,
                WaitEvent::Disconnected => res == WaitStep::Failed && *final(self) == *old(self),
                WaitEvent::Received(p) => {
                    &&& final(self).retries == old(self).retries + old(self).attempt
                    &&& final(self).attempt == 0
                    &&& res == if p == Packet::Pubrel(old(self).pid) {
                        WaitStep::Done
                    } else {
                        WaitStep::Wait
                    }
                },
            },
    {
        match event {
            WaitEvent::Timeout => {
                self.attempt = self.attempt + 1;
                WaitStep::Resend
            },
            WaitEvent::Disconnected => WaitStep::Failed,
            WaitEvent::Received(p) => {
                self.retries = self.retries + self.attempt;
                self.attempt = 0;
                match p {
                    Packet::Pubrel(resp) => {
                        if resp == self.pid {
                            WaitStep::Done
                        } else {
                            WaitStep::Wait
                        }
                    },
                    _ => WaitStep::Wait,
                }
            },
        }
    }
}

/// A return code of a Suback that is not what was asked for.
#[derive(Clone, Copy, Debug, PartialEq, Eq, Structural)]
pub enum SubackWarning {
    /// Topic `index` was granted another QoS level.
    QosMismatch { index: usize, expected: QoS, actual: QoS },
    /// Topic `index` was refused.
    Failure { index: usize },
}

/// Check a Suback against the subscription: its identifier must be the
/// subscription's; each return code that differs from the requested level
/// gives a warning. Returns the return codes and the warnings.
pub fn check_suback(pid: Pid, topics: &Vec<SubscribeTopic>, suback: &Suback) -> (res: Result<
    (Vec<SubscribeReturnCodes>, Vec<SubackWarning>),
    CommandError,
>)
    requires
        suback.pid == pid ==> suback.return_codes@.len() <= topics@.len(),
    ensures
        suback.pid != pid ==> (res matches Err(CommandError::Failed(m)) && m@
            == "MQTT Suback protocol violation detected."@),
        suback.pid == pid ==> (res matches Ok((codes, warnings)) && codes@ == suback.return_codes@
            && warnings@ == suback_warnings(topics@, suback.return_codes@)),
{
    if suback.pid != pid {
        return Err(
            CommandError::Failed(String::from_str("MQTT Suback protocol violation detected.")),
        );
    }
    let mut codes: Vec<SubscribeReturnCodes> = Vec::new();
    let mut warnings: Vec<SubackWarning> = Vec::new();
    let mut idx: usize = 0;
    while idx < suback.return_codes.len()
        invariant
            idx <= suback.return_codes@.len(),
            suback.return_codes@.len() <= topics@.len(),
            codes@ == suback.return_codes@.take(idx as int),
            warnings@ == suback_warnings(topics@, suback.return_codes@.take(idx as int)),
        decreases suback.return_codes@.len() - idx,
    {
        let code = suback.return_codes[idx];
        codes.push(code);
        let ghost before = suback.return_codes@.take(idx as int);
        assert(suback.return_codes@.take(idx + 1) =~= before.push(code));
        assert(suback.return_codes@.take(idx + 1).drop_last() =~= before);
        match code {
            SubscribeReturnCodes::Success(qos) => {
                if qos != topics[idx].qos {
                    warnings.push(
                        SubackWarning::QosMismatch { index: idx, expected: topics[idx].qos, actual: qos },
                    );
                }
            },
            SubscribeReturnCodes::Failure => {
                warnings.push(SubackWarning::Failure { index: idx });
            },
        }
        idx = idx + 1;
        assert(codes@ =~= suback.return_codes@.take(idx as int));
    }
    assert(suback.return_codes@.take(idx as int) =~= suback.return_codes@);
    Ok((codes, warnings))
}

/// The warnings for the return codes, in order.
pub open spec fn suback_warnings(topics: Seq<SubscribeTopic>, codes: Seq<SubscribeReturnCodes>) -> Seq<
    SubackWarning,
>
    decreases codes.len(),
{
    if codes.len() == 0 {
        Seq::empty()
    } else {
        let idx = (codes.len() - 1) as int;
        let rest = suback_warnings(topics, codes.drop_last());
        match codes.last() {
            SubscribeReturnCodes::Success(qos) => if qos != topics[idx].qos {
                rest.push(
                    SubackWarning::QosMismatch {
                        index: idx as usize,
                        expected: topics[idx].qos,
                        actual: qos,
                    },
                )
            } else {
                rest
            },
            SubscribeReturnCodes::Failure => rest.push(SubackWarning::Failure { index: idx as usize }),
        }
    }
}

/// Whether `res` is the Unsubscribe that ends `subscription`: the same
/// identifier and topic paths.
pub open spec fn ends_subscription(subscription: Subscribe, res: Unsubscribe) -> bool {
    &&& res.pid == subscription.pid
    &&& strings_view(res.topics@) == subscription.topics@.map_values(|t: SubscribeTopic| t.topic_path@)
}

/// The Unsubscribe packet that ends a subscription: the same identifier and
/// topic paths.
pub fn unsubscribe_for(subscription: &Subscribe) -> (res: Unsubscribe)
    ensures
        ends_subscription(*subscription, res),

{
    let mut topics: Vec<String> = Vec::new();
    let mut i: usize = 0;
    while i < subscription.topics.len()
        invariant
            i <= subscription.topics@.len(),
            strings_view(topics@) == subscription.topics@.take(i as int).map_values(
                |t: SubscribeTopic| t.topic_path@,
            ),
        decreases subscription.topics@.len() - i,
    {
        let ghost before = strings_view(topics@);
        let path = subscription.topics[i].topic_path.clone();
        topics.push(path);
        assert(strings_view(topics@) =~= before.push(path@));
        assert(subscription.topics@.take(i + 1) =~= subscription.topics@.take(i as int).push(
            subscription.topics@[i as int],
        ));
        i = i + 1;
    }
    assert(subscription.topics@.take(i as int) =~= subscription.topics@);
    Unsubscribe { pid: subscription.pid, topics }
}

/// What the answer to the Unsubscribe says: `Ok(true)` for an Unsuback with
/// the right identifier, `Ok(false)` for one with another identifier (which
/// only deserves a warning), an error for any other packet.
pub fn check_unsuback(pid: Pid, answer: &Packet) -> (res: Result<bool, CommandError>)
    ensures
        match answer {
            Packet::Unsuback(p) => res == Ok::<bool, CommandError>(*p == pid),
            _ => res matches Err(CommandError::Failed(m)) && m@
                == "Received unexpected packet while waiting for PINGRESP"@,
        },
{
    match answer {
        Packet::Unsuback(p) => Ok(*p == pid),
        _ => Err(
            CommandError::Failed(
                String::from_str("Received unexpected packet while waiting for PINGRESP"),
            ),
        ),
    }
}

} // verus!
