use vstd::prelude::*;

use crate::error::{Error, Result};
use crate::mqtt::packet::{Packet, Pid, QosPid};
use crate::text::{push_str, string_from_chars};

verus! {

/// Messages between a client handler and its QoS trackers.
#[derive(Debug)]
pub enum Msg {
    /// Start a tracker with a packet; only Publish and Pubrec are allowed.
    Init(Packet),
    /// Resend the last packet (a QoS timeout has occurred).
    Retry(u32),
    /// Update a tracker with a packet.
    Update(Packet),
}

/// Status after a QoS update: `Finished` means that the exchange is complete
/// and its tracker can be dropped.
#[derive(Clone, Copy, Debug, PartialEq, Eq, Structural)]
pub enum Update {
    Active,
    Finished(Pid),
}

/// The packet that must come next in a QoS exchange whose last packet is
/// `state`, or `None` if no packet can follow it.
pub open spec fn expected_next(state: Packet) -> Option<Packet> {
    match state {
        Packet::Publish(p) => match p.qospid {
            QosPid::AtMostOnce => None,
            QosPid::AtLeastOnce(pid) => Some(Packet::Puback(pid)),
            QosPid::ExactlyOnce(pid) => Some(Packet::Pubrec(pid)),
        },
        Packet::Pubrec(pid) => Some(Packet::Pubrel(pid)),
        Packet::Pubrel(pid) => Some(Packet::Pubcomp(pid)),
        _ => None,
    }
}

/// Whether a QoS exchange may start with `packet`.
pub open spec fn starts_exchange(packet: Packet) -> bool {
    packet is Publish || packet is Pubrec
}

/// The packet that ends an exchange: Puback or Pubcomp.
pub open spec fn is_final(packet: Packet) -> bool {
    packet is Puback || packet is Pubcomp
}

/// The identifier carried by an acknowledgement packet.
pub open spec fn ack_pid(packet: Packet) -> Pid {
    match packet {
        Packet::Puback(pid) => pid,
        Packet::Pubrec(pid) => pid,
        Packet::Pubrel(pid) => pid,
        Packet::Pubcomp(pid) => pid,
        _ => arbitrary(),
    }
}

/// The name of a packet's kind.
pub open spec fn kind_name_spec(packet: &Packet) -> Seq<char> {
    match packet {
        Packet::Connack(_) => "Connack"@,
        Packet::Connect(_) => "Connect"@,
        Packet::Publish(_) => "Publish"@,
        Packet::Puback(_) => "Puback"@,
        Packet::Pubrec(_) => "Pubrec"@,
        Packet::Pubrel(_) => "Pubrel"@,
        Packet::Pubcomp(_) => "Pubcomp"@,
        Packet::Subscribe(_) => "Subscribe"@,
        Packet::Suback(_) => "Suback"@,
        Packet::Unsubscribe(_) => "Unsubscribe"@,
        Packet::Unsuback(_) => "Unsuback"@,
        Packet::Pingreq => "Pingreq"@,
        Packet::Pingresp => "Pingresp"@,
        Packet::Disconnect => "Disconnect"@,
    }
}

/// The name of a packet's kind, as its `Debug` form begins.
pub fn kind_name(packet: &Packet) -> (res: &'static str)
    ensures
        res@ == kind_name_spec(packet),
{
    match packet {
        Packet::Connack(_) => "Connack",
        Packet::Connect(_) => "Connect",
        Packet::Publish(_) => "Publish",
        Packet::Puback(_) => "Puback",
        Packet::Pubrec(_) => "Pubrec",
        Packet::Pubrel(_) => "Pubrel",
        Packet::Pubcomp(_) => "Pubcomp",
        Packet::Subscribe(_) => "Subscribe",
        Packet::Suback(_) => "Suback",
        Packet::Unsubscribe(_) => "Unsubscribe",
        Packet::Unsuback(_) => "Unsuback",
        Packet::Pingreq => "Pingreq",
        Packet::Pingresp => "Pingresp",
        Packet::Disconnect => "Disconnect",
    }
}

/// `prefix` followed by the kind of `packet`.
fn describe(prefix: &str, packet: &Packet) -> (res: String)
    ensures
        res@ == prefix@ + kind_name_spec(packet),
{
    let mut chars: Vec<char> = Vec::new();
    push_str(&mut chars, prefix);
    push_str(&mut chars, kind_name(packet));
    string_from_chars(&chars)
}

/// Keeps track of one QoS exchange in flight: the last packet of the
/// exchange, and whether its retransmission is scheduled.
#[derive(Debug)]
pub struct Tracker {
    state: Packet,
    retrying: bool,
}

/// What a tracker holds: the last packet of the exchange and whether its
/// retransmission is scheduled.
pub type TrackerView = (Packet, bool);

/// The tracker after an update with `packet`, and the identifier of the
/// exchange if the update finished it. A packet that does not follow the
/// last one changes nothing but the retransmission, which stops.
pub open spec fn update_outcome(t: TrackerView, packet: Packet) -> (TrackerView, Option<Pid>) {
    match expected_next(t.0) {
        None => ((t.0, false), None),
        Some(e) => if packet != e {
            ((t.0, false), None)
        } else if is_final(e) {
            ((e, false), Some(ack_pid(e)))
        } else {
            ((e, true), None)
        },
    }
}

/// The identifier of the exchange that an update result says is finished.
pub open spec fn finished_pid(res: Result<Update>) -> Option<Pid> {
    match res {
        Ok(Update::Finished(pid)) => Some(pid),
        _ => None,
    }
}

impl View for Tracker {
    type V = TrackerView;

    open spec fn view(&self) -> TrackerView {
        (self.spec_state(), self.spec_retrying())
    }
}

impl Tracker {
    /// Last packet of the exchange.
    pub closed spec fn spec_state(&self) -> Packet {
        self.state
    }

    /// Whether the last packet is to be sent again after a timeout.
    pub closed spec fn spec_retrying(&self) -> bool {
        self.retrying
    }

    /// Start tracking an exchange that begins with `packet`, and schedule its
    /// retransmission. Only Publish and Pubrec start an exchange.
    pub fn new(packet: Packet) -> (res: Result<Tracker>)
        ensures
            starts_exchange(packet) ==> (res matches Ok(t) && t.spec_state() == packet
                && t.spec_retrying()),
            !starts_exchange(packet) ==> (res matches Err(Error::MQTTProtocolViolation(m)) && m@
                == "Can't start QoS transaction with packet: "@ + kind_name_spec(&packet)),
    {
        match packet {
            Packet::Publish(_) | Packet::Pubrec(_) => Ok(Tracker { state: packet, retrying: true }),
            _ => Err(
                Error::MQTTProtocolViolation(
                    describe("Can't start QoS transaction with packet: ", &packet),
                ),
            ),
        }
    }

    /// The last packet of the exchange: what a retransmission sends.
    pub fn state(&self) -> (res: &Packet)
        ensures
            *res == self.spec_state(),
    {
        &self.state
    }

    /// Whether a retransmission of the last packet is scheduled.
    pub fn retrying(&self) -> (res: bool)
        ensures
            res == self.spec_retrying(),
    {
        self.retrying
    }

    /// Advance the exchange with `packet`. Any scheduled retransmission is
    /// cancelled. The packet must be the one that the last packet calls for;
    /// then it becomes the last packet, and the exchange either finishes
    /// (Puback, Pubcomp) or schedules the retransmission of it.
    pub fn update(&mut self, id: &str, packet: Packet) -> (res: Result<Update>)
        ensures
            match expected_next(old(self).spec_state()) {
                None => {
                    &&& res matches Err(Error::ClientHandlerInvalidState(m)) && m@ == if old(
                        self,
                    ).spec_state() is Publish {
                        "QoS transaction has invalid qos value: "@ + kind_name_spec(
                            &old(self).spec_state(),
                        )
                    } else {
                        "Trying to update QoS transaction with invalid state: "@ + kind_name_spec(
                            &packet,
                        )
                    }
                    &&& final(self).spec_state() == old(self).spec_state()
                    &&& !final(self).spec_retrying()
                },
                Some(e) => if packet != e {
                    &&& res matches Err(Error::MQTTProtocolViolation(m)) && m@
                        == "Received QoS update with invalid state. client = '"@ + id@
                        + "', Expected = "@ + kind_name_spec(&e) + ", actual = "@ + kind_name_spec(&packet)
                    &&& final(self).spec_state() == old(self).spec_state()
                    &&& !final(self).spec_retrying()
                } else {
                    &&& final(self).spec_state() == e
                    &&& is_final(e) ==> res == Ok::<Update, Error>(Update::Finished(ack_pid(e)))
                        && !final(self).spec_retrying()
                    &&& !is_final(e) ==> res == Ok::<Update, Error>(Update::Active)
                        && final(self).spec_retrying()
                },
            },
            (final(self)@, finished_pid(res)) == update_outcome(old(self)@, packet),
    {
        self.retrying = false;
        let expected = match &self.state {
            Packet::Publish(publish) => match publish.qospid {
                QosPid::AtMostOnce => {
                    return Err(
                        Error::ClientHandlerInvalidState(
                            describe("QoS transaction has invalid qos value: ", &self.state),
                        ),
                    );
                },
                QosPid::AtLeastOnce(pid) => Packet::Puback(pid),
                QosPid::ExactlyOnce(pid) => Packet::Pubrec(pid),
            },
            Packet::Pubrec(pid) => Packet::Pubrel(*pid),
            Packet::Pubrel(pid) => Packet::Pubcomp(*pid),
            _ => {
                return Err(
                    Error::ClientHandlerInvalidState(
                        describe("Trying to update QoS transaction with invalid state: ", &packet),
                    ),
                );
            },
        };
        let matches = match (&expected, &packet) {
            (Packet::Puback(a), Packet::Puback(b)) => a == b,
            (Packet::Pubrec(a), Packet::Pubrec(b)) => a == b,
            (Packet::Pubrel(a), Packet::Pubrel(b)) => a == b,
            (Packet::Pubcomp(a), Packet::Pubcomp(b)) => a == b,
            _ => false,
        };
        if !matches {
            let mut chars: Vec<char> = Vec::new();
            push_str(&mut chars, "Received QoS update with invalid state. client = '");
            push_str(&mut chars, id);
            push_str(&mut chars, "', Expected = ");
            push_str(&mut chars, kind_name(&expected));
            push_str(&mut chars, ", actual = ");
            push_str(&mut chars, kind_name(&packet));
            return Err(Error::MQTTProtocolViolation(string_from_chars(&chars)));
        }
        self.state = expected;
        match self.state {
            Packet::Puback(pid) | Packet::Pubcomp(pid) => {
                return Ok(Update::Finished(pid));
            },
            _ => {},
        }
        self.retrying = true;
        Ok(Update::Active)
    }
}

/// Decides, for a retransmission task, whether to wait and send once more or
/// to give up: with `max_retries` above 0, the packet is sent again at most
/// `max_retries` times; with 0 there is no limit.
#[derive(Clone, Copy, Debug, PartialEq, Eq, Structural)]
pub struct RetryTimer {
    pub max_retries: u16,
    pub attempts: u32,
}

impl RetryTimer {
    pub fn new(max_retries: u16) -> (res: RetryTimer)
        ensures
            res.max_retries == max_retries,
            res.attempts == 0,
    {
        RetryTimer { max_retries, attempts: 0 }
    }

    /// Whether another retransmission is due (after the retry interval);
    /// counts it if so.
    pub fn next(&mut self) -> (res: bool)
        ensures
            res == (old(self).max_retries == 0 || old(self).attempts < old(self).max_retries),
            final(self).max_retries == old(self).max_retries,
            res ==> final(self).attempts == if old(self).attempts == u32::MAX {
                u32::MAX as int
            } else {
                old(self).attempts + 1
            },
            !res ==> final(self).attempts == old(self).attempts,
    {
        if self.max_retries != 0 && self.attempts >= self.max_retries as u32 {
            return false;
        }
        self.attempts = self.attempts.saturating_add(1);
        true
    }
}

} // verus!
