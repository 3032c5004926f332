use vstd::prelude::*;

use crate::broker::msg::BrokerMsg;
use crate::broker::session::{qos_after, qos_refused, refused_start_text, Session};
use crate::broker::session::qos::TrackerView;
use crate::broker::Config;
use crate::error::{Error, Result};
use crate::mqtt::packet::{
    clone_strings, same_strings, Connack, ConnectReturnCode, LastWill, Packet, Pid, Publish, QoS,
    QosPid, Suback, SubscribeReturnCodes,
};
use crate::text::strings_view;

verus! {

broadcast use vstd::seq_lib::group_seq_properties;

/// What a client handler must do, in order, on the outside.
#[derive(Debug)]
pub enum Action<Tx> {
    /// Send a packet to the client over its connection.
    SendClient(Packet),
    /// Send a message to the shared broker state.
    SendBroker(BrokerMsg<Tx>),
    /// Cancel the timer that closes a connection without a Connect packet.
    CancelConnectTimeout,
}

/// The result of one decision of a client handler: the actions to perform,
/// in order, and then the outcome. An error closes the connection; an
/// action that fails does so too, and the later ones are not performed.
#[derive(Debug)]
pub struct Step<Tx> {
    pub actions: Vec<Action<Tx>>,
    pub result: Result<()>,
}

/// Protocol state of a client connection.
#[derive(Debug)]
pub enum ClientState<Tx> {
    /// The connection is open but no Connect packet has come yet.
    Initialized,
    /// The Connect handshake is done.
    Connected(Session<Tx>),
}

impl<Tx> PartialEq for ClientState<Tx> {
    fn eq(&self, other: &Self) -> (res: bool) {
        match (self, other) {
            (ClientState::Initialized, ClientState::Initialized) => true,
            (ClientState::Connected(a), ClientState::Connected(b)) => a == b,
            _ => false,
        }
    }
}

impl<Tx> vstd::std_specs::cmp::PartialEqSpecImpl for ClientState<Tx> {
    open spec fn obeys_eq_spec() -> bool {
        true
    }

    open spec fn eq_spec(&self, other: &ClientState<Tx>) -> bool {
        match (self, other) {
            (ClientState::Initialized, ClientState::Initialized) => true,
            (ClientState::Connected(a), ClientState::Connected(b)) => a.spec_id() == b.spec_id()
                && a.spec_config() == b.spec_config(),
            _ => false,
        }
    }
}

/// Two optional last wills with the same contents.
pub open spec fn same_last_will(a: Option<LastWill>, b: Option<LastWill>) -> bool {
    match (a, b) {
        (Some(x), Some(y)) => x.same(&y),
        (None, None) => true,
        _ => false,
    }
}

/// The decisions of a client handler: its protocol state, whether the client
/// sent a Disconnect packet, a copy of the broker configuration and the
/// channel over which the broker reaches it.
#[derive(Debug)]
pub struct ClientHandler<Tx> {
    config: Config,
    state: ClientState<Tx>,
    disconnect_pkt_seen: bool,
    client_tx: Tx,
}

/// The QoS level, and the identifier that levels above 0 carry, of a last
/// will published by the broker.
pub open spec fn will_qospid(qos: QoS) -> QosPid {
    match qos {
        QoS::AtMostOnce => QosPid::AtMostOnce,
        QoS::AtLeastOnce => QosPid::AtLeastOnce(Pid::spec_one()),
        QoS::ExactlyOnce => QosPid::ExactlyOnce(Pid::spec_one()),
    }
}

/// Whether `msg` forwards the publish `p` of client `client` to the broker.
pub open spec fn is_publish_msg<Tx>(msg: BrokerMsg<Tx>, client: Seq<char>, p: Publish) -> bool {
    match msg {
        BrokerMsg::Publish { client: c, dup, qospid, retain, topic_name, payload } => {
            &&& c@ == client
            &&& dup == p.dup
            &&& qospid == p.qospid
            &&& retain == p.retain
            &&& topic_name@ == p.topic_name@
            &&& payload@ == p.payload@
        },
        _ => false,
    }
}

/// Whether `a` sends a Publish with the contents of `p` to the client.
pub open spec fn is_send_publish<Tx>(a: Action<Tx>, p: Publish) -> bool {
    match a {
        Action::SendClient(Packet::Publish(q)) => q.same(&p),
        _ => false,
    }
}

/// Whether `a` sends exactly `p`, a packet without text, to the client.
/// The error text when an operation needs the session before the handshake.
pub open spec fn no_session_text() -> Seq<char> {
    "Could not get session data for client"@
}

/// The error text when an update needs the session before the handshake.
pub open spec fn no_mut_session_text() -> Seq<char> {
    "Could not get mutable session data for client"@
}

/// The error text for a packet that only a broker may send.
pub open spec fn refused_packet_text(pkt: &Packet) -> Seq<char> {
    match pkt {
        Packet::Connack(_) => "Received Connack packet from client. This is not allowed. Closing connection."@,
        Packet::Suback(_) => "Received Suback packet from client. This is not allowed. Closing connection."@,
        Packet::Unsuback(_) => "Received Unsuback packet from client. This is not allowed. Closing connection."@,
        _ => "Received Pingresp packet from client. Closing connection."@,
    }
}

pub open spec fn is_send<Tx>(a: Action<Tx>, p: Packet) -> bool {
    a == Action::<Tx>::SendClient(p)
}

impl<Tx: Clone> ClientHandler<Tx> {
    pub closed spec fn spec_config(&self) -> Config {
        self.config
    }

    pub closed spec fn spec_state(&self) -> ClientState<Tx> {
        self.state
    }

    pub closed spec fn spec_disconnect_seen(&self) -> bool {
        self.disconnect_pkt_seen
    }

    pub closed spec fn spec_client_tx(&self) -> Tx {
        self.client_tx
    }

    /// Whether the handshake is done.
    pub open spec fn is_connected(&self) -> bool {
        self.spec_state() is Connected
    }

    /// The QoS exchanges of the session; none before the handshake.
    pub open spec fn session_qos(&self) -> Map<u16, TrackerView> {
        match self.spec_state() {
            ClientState::Connected(s) => s.qos_view(),
            ClientState::Initialized => Map::empty(),
        }
    }

    /// The client identifier; empty before the handshake.
    pub open spec fn client_id(&self) -> Seq<char> {
        match self.spec_state() {
            ClientState::Connected(s) => s.spec_id(),
            ClientState::Initialized => Seq::empty(),
        }
    }

    /// Everything but the QoS exchanges and the Disconnect mark is as in
    /// `old`.
    pub open spec fn same_but_qos(&self, old: &Self) -> bool {
        &&& self.spec_config() == old.spec_config()
        &&& self.spec_client_tx() == old.spec_client_tx()
        &&& (self.spec_state() is Connected <==> old.spec_state() is Connected)
        &&& match (self.spec_state(), old.spec_state()) {
            (ClientState::Connected(a), ClientState::Connected(b)) => {
                &&& a.spec_id() == b.spec_id()
                &&& a.spec_config() == b.spec_config()
                &&& a.spec_last_will() == b.spec_last_will()
                &&& a.spec_client_tx() == b.spec_client_tx()
            },
            _ => true,
        }
    }

    /// A handler for a new connection: no handshake yet, no Disconnect seen.
    pub fn new(config: Config, client_tx: Tx) -> (res: ClientHandler<Tx>)
        ensures
            res.spec_config() == config,
            res.spec_state() is Initialized,
            !res.spec_disconnect_seen(),
            res.spec_client_tx() == client_tx,
    {
        ClientHandler { config, state: ClientState::Initialized, disconnect_pkt_seen: false, client_tx }
    }

    pub fn state(&self) -> (res: &ClientState<Tx>)
        ensures
            *res == self.spec_state(),
    {
        &self.state
    }

    pub fn config(&self) -> (res: &Config)
        ensures
            *res == self.spec_config(),
    {
        &self.config
    }

    pub fn disconnect_pkt_seen(&self) -> (res: bool)
        ensures
            res == self.spec_disconnect_seen(),
    {
        self.disconnect_pkt_seen
    }

    /// The session, once the handshake is done.
    pub fn get_session(&self) -> (res: Result<&Session<Tx>>)
        ensures
            match self.spec_state() {
                ClientState::Connected(s) => res == Ok::<&Session<Tx>, Error>(&s),
                ClientState::Initialized => res matches Err(Error::ClientHandlerInvalidState(m))
                    && m@ == no_session_text(),
            },
    {
        match &self.state {
            ClientState::Connected(s) => Ok(s),
            ClientState::Initialized => Err(
                Error::ClientHandlerInvalidState(
                    String::from_str("Could not get session data for client"),
                ),
            ),
        }
    }

    /// Track the protocol state through a packet from the client, before the
    /// packet is handled: the first packet must be Connect, which starts the
    /// session, tells the broker and cancels the connection timer; a second
    /// Connect is a violation.
    pub fn update_state(&mut self, pkt: &Packet) -> (res: Step<Tx>)
        ensures
            final(self).spec_config() == old(self).spec_config(),
            final(self).spec_disconnect_seen() == old(self).spec_disconnect_seen(),
            final(self).spec_client_tx() == old(self).spec_client_tx(),
            match (old(self).spec_state(), pkt) {
                (ClientState::Initialized, Packet::Connect(c)) => {
                    &&& res.result is Ok
                    &&& final(self).spec_state() matches ClientState::Connected(s)
                    &&& s.spec_id() == c.client_id@
                    &&& s.spec_config() == old(self).spec_config()
                    &&& same_last_will(s.spec_last_will(), c.last_will)
                    &&& vstd::pervasive::cloned(old(self).spec_client_tx(), s.spec_client_tx())
                    &&& s.qos_view() == Map::<u16, TrackerView>::empty()
                    &&& res.actions@.len() == 2
                    &&& res.actions@[0] matches Action::SendBroker(
                        BrokerMsg::ClientConnected { client, client_tx },
                    )
                    &&& client@ == c.client_id@
                    &&& vstd::pervasive::cloned(old(self).spec_client_tx(), client_tx)
                    &&& res.actions@[1] matches Action::CancelConnectTimeout
                },
                (ClientState::Initialized, _) => {
                    &&& res.result matches Err(Error::MQTTProtocolViolation(m))
                    &&& m@ == "Initialized client expected Connect packet."@
                    &&& res.actions@.len() == 0
                    &&& final(self).spec_state() == old(self).spec_state()
                },
                (ClientState::Connected(_), Packet::Connect(_)) => {
                    &&& res.result matches Err(Error::MQTTProtocolViolation(m))
                    &&& m@ == "Connect packet received from already connected client. Closing connection."@
                    &&& res.actions@.len() == 0
                    &&& final(self).spec_state() == old(self).spec_state()
                },
                (ClientState::Connected(_), _) => {
                    &&& res.result is Ok
                    &&& res.actions@.len() == 0
                    &&& final(self).spec_state() == old(self).spec_state()
                },
            },
    {
        let initialized = match &self.state {
            ClientState::Initialized => true,
            ClientState::Connected(_) => false,
        };
        if initialized {
            match pkt {
                Packet::Connect(connect) => {
                    let last_will = match &connect.last_will {
                        Some(lw) => Some(lw.clone()),
                        None => None,
                    };
                    let info = Session::new(
                        connect.client_id.as_str(),
                        &self.config,
                        last_will,
                        self.client_tx.clone(),
                    );
                    let mut actions: Vec<Action<Tx>> = Vec::new();
                    actions.push(
                        Action::SendBroker(
                            BrokerMsg::ClientConnected {
                                client: connect.client_id.clone(),
                                client_tx: self.client_tx.clone(),
                            },
                        ),
                    );
                    actions.push(Action::CancelConnectTimeout);
                    self.state = ClientState::Connected(info);
                    Step { actions, result: Ok(()) }
                },
                _ => Step {
                    actions: Vec::new(),
                    result: Err(
                        Error::MQTTProtocolViolation(
                            String::from_str("Initialized client expected Connect packet."),
                        ),
                    ),
                },
            }
        } else {
            match pkt {
                Packet::Connect(_) => Step {
                    actions: Vec::new(),
                    result: Err(
                        Error::MQTTProtocolViolation(
                            String::from_str(
                                "Connect packet received from already connected client. Closing connection.",
                            ),
                        ),
                    ),
                },
                _ => Step { actions: Vec::new(), result: Ok(()) },
            }
        }
    }

    /// The message that forwards publish `p` of client `client` to the broker.
    fn publish_msg(client: String, p: &Publish) -> (res: BrokerMsg<Tx>)
        ensures
            is_publish_msg(res, client@, *p),
    {
        BrokerMsg::Publish {
            client,
            dup: p.dup,
            qospid: p.qospid,
            retain: p.retain,
            topic_name: p.topic_name.clone(),
            payload: p.payload.clone(),
        }
    }

    /// The client identifier of the session.
    fn session_id(&self) -> (res: String)
        requires
            self.is_connected(),
        ensures
            res@ == self.client_id(),
    {
        match &self.state {
            ClientState::Connected(s) => s.id().to_owned(),
            ClientState::Initialized => String::new(),
        }
    }

    /// Act on a packet from the client, after `update_state` accepted it.
    pub fn handle_packet(&mut self, pkt: &Packet) -> (res: Step<Tx>)
        ensures
            final(self).same_but_qos(old(self)),
            final(self).client_id() == old(self).client_id(),
            !(pkt is Disconnect) ==> final(self).spec_disconnect_seen() == old(self).spec_disconnect_seen(),
            match pkt {
                Packet::Connect(_) => {
                    &&& res.result is Ok
                    &&& res.actions@ == seq![Action::<Tx>::SendClient(Packet::Connack(Connack {
                        session_present: false,
                        code: ConnectReturnCode::Accepted,
                    }))]
                    &&& final(self).session_qos() == old(self).session_qos()
                },
                Packet::Publish(p) => if !old(self).is_connected() {
                    &&& res.result matches Err(Error::ClientHandlerInvalidState(m))
                    &&& m@ == no_mut_session_text()
                    &&& res.actions@.len() == 0
                    &&& final(self).session_qos() == old(self).session_qos()
                } else {
                    &&& res.result is Ok
                    &&& match p.qospid {
                        QosPid::AtMostOnce => {
                            &&& res.actions@.len() == 1
                            &&& final(self).session_qos() == old(self).session_qos()
                        },
                        QosPid::AtLeastOnce(pid) => {
                            &&& res.actions@.len() == 2
                            &&& is_send(res.actions@[0], Packet::Puback(pid))
                            &&& final(self).session_qos() == old(self).session_qos()
                        },
                        QosPid::ExactlyOnce(pid) => {
                            &&& res.actions@.len() == 2
                            &&& is_send(res.actions@[0], Packet::Pubrec(pid))
                            &&& final(self).session_qos() == qos_after(
                                old(self).session_qos(),
                                pid,
                                Packet::Pubrec(pid),
                            )
                        },
                    }
                    &&& res.actions@.last() matches Action::SendBroker(m)
                    &&& is_publish_msg(m, old(self).client_id(), *p)
                },
                Packet::Puback(pid) | Packet::Pubcomp(pid) => {
                    &&& res.actions@.len() == 0
                    &&& old(self).is_connected() ==> final(self).session_qos() == qos_after(
                        old(self).session_qos(),
                        *pid,
                        *pkt,
                    ) && if qos_refused(old(self).session_qos(), *pid, *pkt) {
                        res.result matches Err(Error::MQTTProtocolViolation(m)) && m@
                            == refused_start_text(*pkt)
                    } else {
                        res.result is Ok
                    }
                    &&& !old(self).is_connected() ==> (res.result matches Err(
                        Error::ClientHandlerInvalidState(m),
                    ) && m@ == no_mut_session_text()) && final(self).session_qos() == old(
                        self,
                    ).session_qos()
                },
                Packet::Pubrec(pid) => {
                    &&& old(self).is_connected() ==> res.result is Ok && res.actions@ == seq![
                        Action::<Tx>::SendClient(Packet::Pubrel(*pid))] && final(self).session_qos()
                        == qos_after(
                        qos_after(old(self).session_qos(), *pid, Packet::Pubrec(*pid)),
                        *pid,
                        Packet::Pubrel(*pid),
                    )
                    &&& !old(self).is_connected() ==> (res.result matches Err(
                        Error::ClientHandlerInvalidState(m),
                    ) && m@ == no_mut_session_text()) && res.actions@.len() == 0
                        && final(self).session_qos() == old(self).session_qos()
                },
                Packet::Pubrel(pid) => {
                    &&& (old(self).is_connected() && qos_refused(
                        old(self).session_qos(),
                        *pid,
                        Packet::Pubrel(*pid),
                    )) ==> (res.result matches Err(Error::MQTTProtocolViolation(m)) && m@
                        == refused_start_text(Packet::Pubrel(*pid))) && res.actions@.len() == 0
                        && final(self).session_qos() == old(self).session_qos()
                    &&& (old(self).is_connected() && !qos_refused(
                        old(self).session_qos(),
                        *pid,
                        Packet::Pubrel(*pid),
                    )) ==> res.result is Ok && res.actions@ == seq![
                        Action::<Tx>::SendClient(Packet::Pubcomp(*pid))] && final(self).session_qos()
                        == qos_after(
                        qos_after(old(self).session_qos(), *pid, Packet::Pubrel(*pid)),
                        *pid,
                        Packet::Pubcomp(*pid),
                    )
                    &&& !old(self).is_connected() ==> (res.result matches Err(
                        Error::ClientHandlerInvalidState(m),
                    ) && m@ == no_mut_session_text()) && res.actions@.len() == 0
                        && final(self).session_qos() == old(self).session_qos()
                },
                Packet::Subscribe(sub) => {
                    &&& final(self).session_qos() == old(self).session_qos()
                    &&& if sub.topics@.len() == 0 {
                        &&& res.result matches Err(Error::MQTTProtocolViolation(m))
                        &&& m@ == "Received subscribe packet with no topics from client. This is not allowed. Closing connection."@
                        &&& res.actions@.len() == 0
                    } else {
                        &&& res.actions@.len() >= 1
                        &&& res.actions@[0] matches Action::SendClient(Packet::Suback(ack))
                        &&& ack.pid == sub.pid
                        &&& ack.return_codes@ == Seq::new(
                            sub.topics@.len(),
                            |i: int| SubscribeReturnCodes::Success(QoS::AtMostOnce),
                        )
                        &&& old(self).is_connected() ==> {
                            &&& res.result is Ok
                            &&& res.actions@.len() == 2
                            &&& res.actions@[1] matches Action::SendBroker(
                                BrokerMsg::Subscribe { client, pid, topics },
                            )
                            &&& client@ == old(self).client_id()
                            &&& pid == sub.pid
                            &&& strings_view(topics@) == sub.topics@.map_values(
                                |t: crate::mqtt::packet::SubscribeTopic| t.topic_path@,
                            )
                        }
                        &&& !old(self).is_connected() ==> (res.result matches Err(
                            Error::ClientHandlerInvalidState(m),
                        ) && m@ == no_mut_session_text()) && res.actions@.len() == 1
                    }
                },
                Packet::Unsubscribe(unsub) => {
                    &&& final(self).session_qos() == old(self).session_qos()
                    &&& if unsub.topics@.len() == 0 {
                        &&& res.result matches Err(Error::MQTTProtocolViolation(m))
                        &&& m@ == "Received Unsubscribe packet with empty topic list."@
                        &&& res.actions@.len() == 0
                    } else if !old(self).is_connected() {
                        &&& res.result matches Err(Error::ClientHandlerInvalidState(m))
                        &&& m@ == no_session_text()
                        &&& res.actions@.len() == 0
                    } else {
                        &&& res.result is Ok
                        &&& res.actions@.len() == 2
                        &&& res.actions@[0] matches Action::SendBroker(
                            BrokerMsg::Unsubscribe { client, pid, topics },
                        )
                        &&& client@ == old(self).client_id()
                        &&& pid == unsub.pid
                        &&& same_strings(topics@, unsub.topics@)
                        &&& is_send(res.actions@[1], Packet::Unsuback(unsub.pid))
                    }
                },
                Packet::Pingreq => {
                    &&& res.result is Ok
                    &&& res.actions@ == seq![Action::<Tx>::SendClient(Packet::Pingresp)]
                    &&& final(self).session_qos() == old(self).session_qos()
                },
                Packet::Disconnect => {
                    &&& res.result is Ok
                    &&& res.actions@.len() == 0
                    &&& final(self).spec_disconnect_seen()
                    &&& final(self).session_qos() == old(self).session_qos()
                },
                _ => {
                    &&& res.result matches Err(Error::MQTTProtocolViolation(m))
                    &&& m@ == refused_packet_text(pkt)
                    &&& res.actions@.len() == 0
                    &&& final(self).session_qos() == old(self).session_qos()
                },
            },
    {
        let mut actions: Vec<Action<Tx>> = Vec::new();
        match pkt {
            Packet::Connect(_) => {
                actions.push(
                    Action::SendClient(
                        Packet::Connack(
                            Connack { session_present: false, code: ConnectReturnCode::Accepted },
                        ),
                    ),
                );
                Step { actions, result: Ok(()) }
            },
            Packet::Connack(_) => Step {
                actions,
                result: Err(
                    Error::MQTTProtocolViolation(
                        String::from_str(
                            "Received Connack packet from client. This is not allowed. Closing connection.",
                        ),
                    ),
                ),
            },
            Packet::Publish(publish) => {
                let connected = match &self.state {
                    ClientState::Connected(_) => true,
                    ClientState::Initialized => false,
                };
                if !connected {
                    return Step {
                        actions,
                        result: Err(
                            Error::ClientHandlerInvalidState(
                                String::from_str("Could not get mutable session data for client"),
                            ),
                        ),
                    };
                }
                let client_id = self.session_id();
                match publish.qospid {
                    QosPid::AtMostOnce => {},
                    QosPid::AtLeastOnce(pid) => {
                        actions.push(Action::SendClient(Packet::Puback(pid)));
                    },
                    QosPid::ExactlyOnce(pid) => {
                        let _ = self.update_qos(pid, Packet::Pubrec(pid));
                        actions.push(Action::SendClient(Packet::Pubrec(pid)));
                    },
                }
                actions.push(Action::SendBroker(Self::publish_msg(client_id, publish)));
                Step { actions, result: Ok(()) }
            },
            Packet::Puback(pid) => {
                let result = self.update_qos(*pid, Packet::Puback(*pid));
                Step { actions, result }
            },
            Packet::Pubrec(pid) => {
                let r = self.update_qos(*pid, Packet::Pubrec(*pid));
                if r.is_err() {
                    return Step { actions, result: r };
                }
                actions.push(Action::SendClient(Packet::Pubrel(*pid)));
                let result = self.update_qos(*pid, Packet::Pubrel(*pid));
                Step { actions, result }
            },
            Packet::Pubrel(pid) => {
                let r = self.update_qos(*pid, Packet::Pubrel(*pid));
                if r.is_err() {
                    return Step { actions, result: r };
                }
                actions.push(Action::SendClient(Packet::Pubcomp(*pid)));
                let result = self.update_qos(*pid, Packet::Pubcomp(*pid));
                Step { actions, result }
            },
            Packet::Pubcomp(pid) => {
                let result = self.update_qos(*pid, Packet::Pubcomp(*pid));
                Step { actions, result }
            },
            Packet::Subscribe(subscribe) => {
                if subscribe.topics.len() == 0 {
                    return Step {
                        actions,
                        result: Err(
                            Error::MQTTProtocolViolation(
                                String::from_str(
                                    "Received subscribe packet with no topics from client. This is not allowed. Closing connection.",
                                ),
                            ),
                        ),
                    };
                }
                let mut return_codes: Vec<SubscribeReturnCodes> = Vec::new();
                let mut paths: Vec<String> = Vec::new();
                let mut i: usize = 0;
                while i < subscribe.topics.len()
                    invariant
                        i <= subscribe.topics@.len(),
                        return_codes@ == Seq::new(
                            i as nat,
                            |j: int| SubscribeReturnCodes::Success(QoS::AtMostOnce),
                        ),
                        strings_view(paths@) == subscribe.topics@.take(i as int).map_values(
                            |t: crate::mqtt::packet::SubscribeTopic| t.topic_path@,
                        ),
                    decreases subscribe.topics@.len() - i,
                {
                    return_codes.push(SubscribeReturnCodes::Success(QoS::AtMostOnce));
                    let ghost before = strings_view(paths@);
                    let path = subscribe.topics[i].topic_path.clone();
                    paths.push(path);
                    assert(strings_view(paths@) =~= before.push(path@));
                    assert(subscribe.topics@.take(i + 1) =~= subscribe.topics@.take(i as int).push(
                        subscribe.topics@[i as int],
                    ));
                    i = i + 1;
                    assert(return_codes@ =~= Seq::new(
                        i as nat,
                        |j: int| SubscribeReturnCodes::Success(QoS::AtMostOnce),
                    ));
                    assert(strings_view(paths@) =~= subscribe.topics@.take(i as int).map_values(
                        |t: crate::mqtt::packet::SubscribeTopic| t.topic_path@,
                    ));
                }
                assert(subscribe.topics@.take(i as int) =~= subscribe.topics@);
                actions.push(
                    Action::SendClient(
                        Packet::Suback(Suback { pid: subscribe.pid, return_codes }),
                    ),
                );
                let connected = match &self.state {
                    ClientState::Connected(_) => true,
                    ClientState::Initialized => false,
                };
                if !connected {
                    return Step {
                        actions,
                        result: Err(
                            Error::ClientHandlerInvalidState(
                                String::from_str("Could not get mutable session data for client"),
                            ),
                        ),
                    };
                }
                let client = self.session_id();
                actions.push(
                    Action::SendBroker(
                        BrokerMsg::Subscribe { client, pid: subscribe.pid, topics: paths },
                    ),
                );
                Step { actions, result: Ok(()) }
            },
            Packet::Suback(_) => Step {
                actions,
                result: Err(
                    Error::MQTTProtocolViolation(
                        String::from_str(
                            "Received Suback packet from client. This is not allowed. Closing connection.",
                        ),
                    ),
                ),
            },
            Packet::Unsubscribe(unsubscribe) => {
                if unsubscribe.topics.len() == 0 {
                    return Step {
                        actions,
                        result: Err(
                            Error::MQTTProtocolViolation(
                                String::from_str(
                                    "Received Unsubscribe packet with empty topic list.",
                                ),
                            ),
                        ),
                    };
                }
                let connected = match &self.state {
                    ClientState::Connected(_) => true,
                    ClientState::Initialized => false,
                };
                if !connected {
                    return Step {
                        actions,
                        result: Err(
                            Error::ClientHandlerInvalidState(
                                String::from_str("Could not get session data for client"),
                            ),
                        ),
                    };
                }
                let client = self.session_id();
                actions.push(
                    Action::SendBroker(
                        BrokerMsg::Unsubscribe {
                            client,
                            pid: unsubscribe.pid,
                            topics: clone_strings(&unsubscribe.topics),
                        },
                    ),
                );
                actions.push(Action::SendClient(Packet::Unsuback(unsubscribe.pid)));
                Step { actions, result: Ok(()) }
            },
            Packet::Unsuback(_) => Step {
                actions,
                result: Err(
                    Error::MQTTProtocolViolation(
                        String::from_str(
                            "Received Unsuback packet from client. This is not allowed. Closing connection.",
                        ),
                    ),
                ),
            },
            Packet::Pingreq => {
                actions.push(Action::SendClient(Packet::Pingresp));
                Step { actions, result: Ok(()) }
            },
            Packet::Pingresp => Step {
                actions,
                result: Err(
                    Error::MQTTProtocolViolation(
                        String::from_str("Received Pingresp packet from client. Closing connection."),
                    ),
                ),
            },
            Packet::Disconnect => {
                self.disconnect_pkt_seen = true;
                Step { actions, result: Ok(()) }
            },
        }
    }

    /// Act on a message from the shared broker state: a publish to forward to
    /// the client (starting its QoS exchange above level 0), the connection
    /// timer firing, or a retransmission. Other messages are ignored.
    pub fn decode_broker_msg(&mut self, msg: BrokerMsg<Tx>) -> (res: Step<Tx>)
        ensures
            final(self).same_but_qos(old(self)),
            final(self).spec_disconnect_seen() == old(self).spec_disconnect_seen(),
            match msg {
                BrokerMsg::Publish { client, dup, qospid, retain, topic_name, payload } => {
                    let p = Publish { dup, qospid, retain, topic_name, payload };
                    &&& res.actions@.len() == 1
                    &&& is_send_publish(res.actions@[0], p)
                    &&& match qospid {
                        QosPid::AtMostOnce => {
                            &&& res.result is Ok
                            &&& final(self).session_qos() == old(self).session_qos()
                        },
                        QosPid::AtLeastOnce(pid) | QosPid::ExactlyOnce(pid) => {
                            &&& old(self).is_connected() ==> res.result is Ok && final(self).session_qos() == qos_after(
                                old(self).session_qos(),
                                pid,
                                Packet::Publish(p),
                            )
                            &&& !old(self).is_connected() ==> (res.result matches Err(
                                Error::ClientHandlerInvalidState(m),
                            ) && m@ == no_mut_session_text()) && final(self).session_qos() == old(
                                self,
                            ).session_qos()
                        },
                    }
                },
                BrokerMsg::ClientConnectionTimeout => {
                    &&& res.actions@.len() == 0
                    &&& final(self).session_qos() == old(self).session_qos()
                    &&& old(self).is_connected() ==> res.result is Ok
                    &&& !old(self).is_connected() ==> (res.result matches Err(
                        Error::MQTTProtocolViolation(m),
                    ) && m@ == "ClientHandler timeout waiting for connection packet. Closing connection."@)
                },
                BrokerMsg::QoSRetry { client, packet } => {
                    &&& res.result is Ok
                    &&& res.actions@ == seq![Action::<Tx>::SendClient(packet)]
                    &&& final(self).session_qos() == old(self).session_qos()
                },
                _ => {
                    &&& res.result is Ok
                    &&& res.actions@.len() == 0
                    &&& final(self).session_qos() == old(self).session_qos()
                },
            },
    {
        let mut actions: Vec<Action<Tx>> = Vec::new();
        match msg {
            BrokerMsg::Publish { client: _, dup, qospid, retain, topic_name, payload } => {
                let publish = Publish { dup, qospid, retain, topic_name, payload };
                actions.push(Action::SendClient(Packet::Publish(publish.clone())));
                match qospid {
                    QosPid::AtMostOnce => Step { actions, result: Ok(()) },
                    QosPid::AtLeastOnce(pid) | QosPid::ExactlyOnce(pid) => {
                        let result = self.update_qos(pid, Packet::Publish(publish));
                        Step { actions, result }
                    },
                }
            },
            BrokerMsg::ClientConnectionTimeout => {
                let result = self.handle_connection_timeout();
                Step { actions, result }
            },
            BrokerMsg::QoSRetry { client: _, packet } => {
                actions.push(Action::SendClient(packet));
                Step { actions, result: Ok(()) }
            },
            _ => Step { actions, result: Ok(()) },
        }
    }

    /// The connection timer fired: fine once the handshake is done, a
    /// violation before.
    pub fn handle_connection_timeout(&self) -> (res: Result<()>)
        ensures
            self.is_connected() ==> res is Ok,
            !self.is_connected() ==> (res matches Err(Error::MQTTProtocolViolation(m)) && m@
                == "ClientHandler timeout waiting for connection packet. Closing connection."@),
    {
        match &self.state {
            ClientState::Connected(_) => Ok(()),
            ClientState::Initialized => Err(
                Error::MQTTProtocolViolation(
                    String::from_str(
                        "ClientHandler timeout waiting for connection packet. Closing connection.",
                    ),
                ),
            ),
        }
    }

    /// What the handler tells the broker when the connection ends.
    pub open spec fn disconnect_actions(&self, res: Seq<Action<Tx>>) -> bool {
        match self.spec_state() {
            ClientState::Initialized => res.len() == 0,
            ClientState::Connected(s) => {
                let will = if self.spec_disconnect_seen() {
                    None
                } else {
                    s.spec_last_will()
                };
                &&& res.len() == if will is Some {
                    2int
                } else {
                    1int
                }
                &&& res.last() matches Action::SendBroker(
                    BrokerMsg::ClientDisconnected { client },
                )
                &&& client@ == s.spec_id()
                &&& will matches Some(lw) ==> {
                    &&& res[0] matches Action::SendBroker(m)
                    &&& is_publish_msg(
                        m,
                        s.spec_id(),
                        Publish {
                            dup: false,
                            qospid: will_qospid(lw.qos),
                            retain: lw.retain,
                            topic_name: lw.topic,
                            payload: lw.message,
                        },
                    )
                }
            },
        }
    }

    /// What to tell the broker when the connection ends: the client's last
    /// will, unless it disconnected on purpose, and that it is gone. Nothing
    /// before the handshake.
    pub fn on_client_disconnect(&self) -> (res: Vec<Action<Tx>>)
        ensures
            self.disconnect_actions(res@),
    {
        let mut actions: Vec<Action<Tx>> = Vec::new();
        match &self.state {
            ClientState::Connected(session) => {
                if !self.disconnect_pkt_seen {
                    match session.last_will() {
                        Some(lw) => {
                            let qospid = match lw.qos {
                                QoS::AtMostOnce => QosPid::AtMostOnce,
                                QoS::AtLeastOnce => QosPid::AtLeastOnce(Pid::new()),
                                QoS::ExactlyOnce => QosPid::ExactlyOnce(Pid::new()),
                            };
                            actions.push(
                                Action::SendBroker(
                                    BrokerMsg::Publish {
                                        client: session.id().to_owned(),
                                        dup: false,
                                        qospid,
                                        retain: lw.retain,
                                        topic_name: lw.topic.clone(),
                                        payload: lw.message.clone(),
                                    },
                                ),
                            );
                        },
                        None => {},
                    }
                }
                actions.push(
                    Action::SendBroker(
                        BrokerMsg::ClientDisconnected { client: session.id().to_owned() },
                    ),
                );
                actions
            },
            ClientState::Initialized => actions,
        }
    }

    /// Feed a packet to the QoS exchange `pid` of the session.
    fn update_qos(&mut self, pid: Pid, packet: Packet) -> (res: Result<()>)
        ensures
            final(self).same_but_qos(old(self)),
            final(self).spec_disconnect_seen() == old(self).spec_disconnect_seen(),
            old(self).is_connected() ==> final(self).session_qos() == qos_after(
                old(self).session_qos(),
                pid,
                packet,
            ) && if qos_refused(old(self).session_qos(), pid, packet) {
                res matches Err(Error::MQTTProtocolViolation(m)) && m@ == refused_start_text(packet)
            } else {
                res is Ok
            },
            !old(self).is_connected() ==> (res matches Err(Error::ClientHandlerInvalidState(m)) && m@
                == no_mut_session_text()) && final(self).session_qos() == old(self).session_qos(),
    {
        match &mut self.state {
            ClientState::Connected(s) => s.update_qos(pid, packet),
            ClientState::Initialized => Err(
                Error::ClientHandlerInvalidState(
                    String::from_str("Could not get mutable session data for client"),
                ),
            ),
        }
    }
}

/// The last will of a client whose connection drops is published at the
/// will's own QoS level, with its topic, message and retain flag, before the
/// broker hears that the client is gone.
pub proof fn lemma_will_published_at_its_level<Tx: Clone>(
    h: ClientHandler<Tx>,
    res: Seq<Action<Tx>>,
    lw: LastWill,
)
    requires
        h.disconnect_actions(res),
        h.spec_state() matches ClientState::Connected(s) && s.spec_last_will() == Some(lw),
        !h.spec_disconnect_seen(),
    ensures
        res.len() == 2,
        res[0] matches Action::SendBroker(BrokerMsg::Publish { qospid, retain, topic_name, payload, .. })
            && qospid.spec_qos() == lw.qos && retain == lw.retain && topic_name@ == lw.topic@
            && payload@ == lw.message@,
        res[1] matches Action::SendBroker(BrokerMsg::ClientDisconnected { .. }),
{
}

} // verus!
