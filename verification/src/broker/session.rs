use vstd::prelude::*;

use std::collections::HashMap;

use crate::broker::Config;
use crate::error::Result;
use crate::mqtt::packet::{LastWill, Packet, Pid};

pub mod qos;

use crate::mqtt::packet::{Publish, QosPid};
use qos::{expected_next, kind_name_spec, starts_exchange, update_outcome, Tracker, TrackerView};

verus! {

broadcast use vstd::std_specs::hash::group_hash_axioms;

/// Session of one client: its identifier, a copy of the broker
/// configuration, its last will, the channel to its handler and its QoS
/// exchanges in flight, by packet identifier.
#[derive(Debug)]
pub struct Session<Tx> {
    id: String,
    config: Config,
    last_will: Option<LastWill>,
    client_tx: Tx,
    qos_txns: HashMap<u16, Tracker>,
}

/// The QoS exchanges of a session after `packet` arrives for identifier
/// `pid`: an unknown identifier starts an exchange if the packet can start
/// one (else nothing changes); a known one is updated, and dropped once its
/// exchange is finished.
pub open spec fn qos_after(m: Map<u16, TrackerView>, pid: Pid, packet: Packet) -> Map<
    u16,
    TrackerView,
> {
    if !m.contains_key(pid@) {
        if starts_exchange(packet) {
            m.insert(pid@, (packet, true))
        } else {
            m
        }
    } else {
        let (t, finished) = update_outcome(m[pid@], packet);
        let m2 = m.insert(pid@, t);
        match finished {
            Some(p) => m2.remove(p@),
            None => m2,
        }
    }
}

/// Whether a packet arrives for an identifier with no exchange in flight and
/// cannot start one: the update is then a protocol violation.
pub open spec fn qos_refused(m: Map<u16, TrackerView>, pid: Pid, packet: Packet) -> bool {
    !m.contains_key(pid@) && !starts_exchange(packet)
}

/// The text of the violation when a packet cannot start an exchange.
pub open spec fn refused_start_text(packet: Packet) -> Seq<char> {
    "Can't start QoS transaction with packet: "@ + kind_name_spec(&packet)
}

/// A QoS 1 exchange that starts with a Publish and is acknowledged with its
/// Puback leaves the exchanges in flight as they were.
pub proof fn lemma_qos1_exchange_completes(m: Map<u16, TrackerView>, pid: Pid, publish: Publish)
    requires
        !m.contains_key(pid@),
        publish.qospid == QosPid::AtLeastOnce(pid),
    ensures
        qos_after(qos_after(m, pid, Packet::Publish(publish)), pid, Packet::Puback(pid)) == m,
{
    let m1 = qos_after(m, pid, Packet::Publish(publish));
    assert(m1[pid@] == (Packet::Publish(publish), true));
    assert(qos_after(m1, pid, Packet::Puback(pid)) =~= m);
}

/// A QoS 2 exchange that starts with a Publish and runs through Pubrec,
/// Pubrel and Pubcomp leaves the exchanges in flight as they were; until the
/// Pubcomp it stays in flight.
pub proof fn lemma_qos2_exchange_completes(m: Map<u16, TrackerView>, pid: Pid, publish: Publish)
    requires
        !m.contains_key(pid@),
        publish.qospid == QosPid::ExactlyOnce(pid),
    ensures
        ({
            let m1 = qos_after(m, pid, Packet::Publish(publish));
            let m2 = qos_after(m1, pid, Packet::Pubrec(pid));
            let m3 = qos_after(m2, pid, Packet::Pubrel(pid));
            &&& m1.contains_key(pid@) && m2.contains_key(pid@) && m3.contains_key(pid@)
            &&& m3[pid@] == (Packet::Pubrel(pid), true)
            &&& qos_after(m3, pid, Packet::Pubcomp(pid)) == m
        }),
{
    let m1 = qos_after(m, pid, Packet::Publish(publish));
    let m2 = qos_after(m1, pid, Packet::Pubrec(pid));
    let m3 = qos_after(m2, pid, Packet::Pubrel(pid));
    assert(m1[pid@] == (Packet::Publish(publish), true));
    assert(m2[pid@] == (Packet::Pubrec(pid), true));
    assert(m3[pid@] == (Packet::Pubrel(pid), true));
    assert(qos_after(m3, pid, Packet::Pubcomp(pid)) =~= m);
}

/// An exchange that starts with a Pubrec completes with Pubrel and Pubcomp.
pub proof fn lemma_pubrec_exchange_completes(m: Map<u16, TrackerView>, pid: Pid)
    requires
        !m.contains_key(pid@),
    ensures
        qos_after(
            qos_after(qos_after(m, pid, Packet::Pubrec(pid)), pid, Packet::Pubrel(pid)),
            pid,
            Packet::Pubcomp(pid),
        ) == m,
{
    let m1 = qos_after(m, pid, Packet::Pubrec(pid));
    let m2 = qos_after(m1, pid, Packet::Pubrel(pid));
    assert(m2[pid@] == (Packet::Pubrel(pid), true));
    assert(qos_after(m2, pid, Packet::Pubcomp(pid)) =~= m);
}

/// A packet that does not follow the last one of an exchange in flight
/// leaves the exchange where it was, with its retransmission stopped, and
/// touches no other exchange.
pub proof fn lemma_unexpected_packet_keeps_exchange(m: Map<u16, TrackerView>, pid: Pid, packet: Packet)
    requires
        m.contains_key(pid@),
        expected_next(m[pid@].0) != Some(packet),
    ensures
        qos_after(m, pid, packet) == m.insert(pid@, (m[pid@].0, false)),
{
}

/// A packet for an identifier with no exchange in flight that cannot start
/// one changes nothing.
pub proof fn lemma_stray_packet_ignored(m: Map<u16, TrackerView>, pid: Pid, packet: Packet)
    requires
        !m.contains_key(pid@),
        !starts_exchange(packet),
    ensures
        qos_after(m, pid, packet) == m,
{
}

impl<Tx> PartialEq for Session<Tx> {
    /// Sessions are equal when the client identifier and the configuration
    /// are.
    fn eq(&self, other: &Self) -> (res: bool) {
        self.id == other.id && self.config == other.config
    }
}

impl<Tx> vstd::std_specs::cmp::PartialEqSpecImpl for Session<Tx> {
    open spec fn obeys_eq_spec() -> bool {
        true
    }

    open spec fn eq_spec(&self, other: &Session<Tx>) -> bool {
        self.spec_id() == other.spec_id() && self.spec_config() == other.spec_config()
    }
}

impl<Tx> Session<Tx> {
    pub closed spec fn spec_id(&self) -> Seq<char> {
        self.id@
    }

    pub closed spec fn spec_config(&self) -> Config {
        self.config
    }

    pub closed spec fn spec_last_will(&self) -> Option<LastWill> {
        self.last_will
    }

    pub closed spec fn spec_client_tx(&self) -> Tx {
        self.client_tx
    }

    /// The QoS exchanges in flight, by packet identifier.
    pub closed spec fn qos_view(&self) -> Map<u16, TrackerView> {
        self.qos_txns@.map_values(|t: Tracker| t@)
    }

    /// Create the session of client `id`, with no exchange in flight.
    pub fn new(id: &str, config: &Config, last_will: Option<LastWill>, client_tx: Tx) -> (res: Session<Tx>)
        ensures
            res.spec_id() == id@,
            res.spec_config() == *config,
            res.spec_last_will() == last_will,
            res.spec_client_tx() == client_tx,
            res.qos_view() == Map::<u16, TrackerView>::empty(),
    {
        let res = Session {
            id: id.to_owned(),
            config: *config,
            last_will,
            client_tx,
            qos_txns: HashMap::new(),
        };
        assert(res.qos_view() =~= Map::<u16, TrackerView>::empty());
        res
    }

    /// Feed `packet` to the QoS exchange with identifier `pid`, starting
    /// it if it is not in flight and dropping it once it is finished. A packet
    /// that cannot start an exchange not in flight is a protocol violation;
    /// one that does not continue an exchange in flight changes nothing but
    /// the exchange's retransmission, which stops.
    pub fn update_qos(&mut self, pid: Pid, packet: Packet) -> (res: Result<()>)
        ensures
            qos_refused(old(self).qos_view(), pid, packet) ==> (res matches Err(
                crate::error::Error::MQTTProtocolViolation(m),
            ) && m@ == refused_start_text(packet)),
            !qos_refused(old(self).qos_view(), pid, packet) ==> res is Ok,
            final(self).qos_view() == qos_after(old(self).qos_view(), pid, packet),
            final(self).spec_id() == old(self).spec_id(),
            final(self).spec_config() == old(self).spec_config(),
            final(self).spec_last_will() == old(self).spec_last_will(),
            final(self).spec_client_tx() == old(self).spec_client_tx(),
    {
        let key = pid.get();
        let ghost m = self.qos_view();
        if !self.qos_txns.contains_key(&key) {
            match Tracker::new(packet) {
                Ok(tracker) => {
                    self.qos_txns.insert(key, tracker);
                    assert(self.qos_view() =~= m.insert(pid@, (packet, true)));
                },
                Err(e) => {
                    return Err(e);
                },
            }
        } else {
            let mut tracker = self.qos_txns.remove(&key).unwrap();
            let outcome = tracker.update(self.id.as_str(), packet);
            self.qos_txns.insert(key, tracker);
            let ghost m2 = m.insert(pid@, tracker@);
            assert(self.qos_view() =~= m2);
            match outcome {
                Ok(qos::Update::Finished(done)) => {
                    let done_key = done.get();
                    self.qos_txns.remove(&done_key);
                    assert(self.qos_view() =~= m2.remove(done@));
                },
                _ => {},
            }
        }
        Ok(())
    }

    /// The client identifier.
    pub fn id(&self) -> (res: &str)
        ensures
            res@ == self.spec_id(),
    {
        self.id.as_str()
    }

    /// The client's last will, if it left one.
    pub fn last_will(&self) -> (res: Option<&LastWill>)
        ensures
            match res {
                Some(lw) => self.spec_last_will() == Some(*lw),
                None => self.spec_last_will() is None,
            },
    {
        self.last_will.as_ref()
    }

    /// The channel to the client handler.
    pub fn client_tx(&self) -> (res: &Tx)
        ensures
            *res == self.spec_client_tx(),
    {
        &self.client_tx
    }

    /// The configuration the session was made with.
    pub fn config(&self) -> (res: &Config)
        ensures
            *res == self.spec_config(),
    {
        &self.config
    }

    /// The exchange with identifier `pid`, if it is in flight.
    pub fn qos_tracker(&self, pid: Pid) -> (res: Option<&Tracker>)
        ensures
            match res {
                Some(t) => self.qos_view().contains_key(pid@) && self.qos_view()[pid@] == t@,
                None => !self.qos_view().contains_key(pid@),
            },
    {
        let key = pid.get();
        self.qos_txns.get(&key)
    }

    /// What a retransmission task of exchange `pid` should resend: its last
    /// packet while a retransmission is scheduled, nothing otherwise (no
    /// such exchange, or it waits for nothing).
    pub fn retransmission(&self, pid: Pid) -> (res: Option<Packet>)
        ensures
            match res {
                Some(p) => self.qos_view().contains_key(pid@) && self.qos_view()[pid@].1
                    && p.same(&self.qos_view()[pid@].0),
                None => !(self.qos_view().contains_key(pid@) && self.qos_view()[pid@].1),
            },
    {
        match self.qos_tracker(pid) {
            Some(t) => if t.retrying() {
                Some(t.state().clone())
            } else {
                None
            },
            None => None,
        }
    }
}

} // verus!
