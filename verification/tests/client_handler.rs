use mqtt_toolkit::broker::client_handler::{Action, ClientHandler, ClientState};
use mqtt_toolkit::broker::config::IpAddress;
use mqtt_toolkit::broker::msg::BrokerMsg;
use mqtt_toolkit::broker::Config;
use mqtt_toolkit::error::Error;
use mqtt_toolkit::mqtt::packet::{
    Connack, Connect, ConnectReturnCode, LastWill, Packet, Pid, Protocol, Publish, QoS, QosPid, Subscribe,
    SubscribeReturnCodes, SubscribeTopic, Unsubscribe,
};

fn handler() -> ClientHandler<u32> {
    ClientHandler::new(Config::new(IpAddress::V4(0, 0, 0, 0), 1883, 0, 0, 30), 7)
}

fn connect_packet(last_will: Option<LastWill>) -> Packet {
    Packet::Connect(Connect {
        clean_session: true,
        client_id: "test-client".into(),
        keep_alive: 0,
        last_will,
        protocol: Protocol::MQTT311,
        username: None,
        password: None,
    })
}

fn pid(n: u16) -> Pid {
    Pid::from_u16(n).unwrap()
}

/// Send a packet from the client the way a connection does: state first,
/// then the packet itself.
fn receive(h: &mut ClientHandler<u32>, p: &Packet) -> (Vec<Action<u32>>, Result<(), Error>) {
    let s = h.update_state(p);
    if s.result.is_err() {
        return (s.actions, s.result);
    }
    let mut actions = s.actions;
    let r = h.handle_packet(p);
    actions.extend(r.actions);
    (actions, r.result)
}

fn connected() -> ClientHandler<u32> {
    let mut h = handler();
    let (_, r) = receive(&mut h, &connect_packet(None));
    assert!(r.is_ok());
    h
}

#[test]
fn non_connect_pkt_on_tcp_connection() {
    let mut h = handler();
    let (actions, r) = receive(&mut h, &Packet::Pingreq);
    assert!(matches!(r, Err(Error::MQTTProtocolViolation(_))));
    assert!(actions.is_empty());
    assert!(h.on_client_disconnect().is_empty());
}

#[test]
fn violation_on_non_connect_packet_first() {
    let mut h = handler();
    let (actions, r) = receive(&mut h, &Packet::Pingreq);
    match r {
        Err(Error::MQTTProtocolViolation(m)) => assert_eq!(m, "Initialized client expected Connect packet."),
        other => panic!("unexpected {:?}", other),
    }
    assert!(actions.is_empty());
    assert!(matches!(h.state(), ClientState::Initialized));
}

#[test]
fn two_connect_pkts_seen() {
    let mut h = handler();
    let (actions, r) = receive(&mut h, &connect_packet(None));
    assert!(r.is_ok());
    assert!(matches!(actions.last(), Some(Action::SendClient(Packet::Connack(_)))));
    let (actions, r) = receive(&mut h, &connect_packet(None));
    assert!(matches!(r, Err(Error::MQTTProtocolViolation(_))));
    assert!(actions.is_empty());
}

#[test]
fn broker_supports_mqtt3() {
    let mut h = handler();
    let (actions, r) = receive(&mut h, &connect_packet(None));
    assert!(r.is_ok());
    assert_eq!(actions.len(), 3);
    match &actions[0] {
        Action::SendBroker(BrokerMsg::ClientConnected { client, client_tx }) => {
            assert_eq!(client, "test-client");
            assert_eq!(*client_tx, 7);
        }
        other => panic!("unexpected {:?}", other),
    }
    assert!(matches!(actions[1], Action::CancelConnectTimeout));
    match &actions[2] {
        Action::SendClient(Packet::Connack(Connack { session_present, code })) => {
            assert!(!session_present);
            assert_eq!(*code, ConnectReturnCode::Accepted);
        }
        other => panic!("unexpected {:?}", other),
    }
    match h.get_session() {
        Ok(s) => assert_eq!(s.id(), "test-client"),
        Err(_) => panic!("no session"),
    }
    assert!(matches!(h.state(), ClientState::Connected(_)));
}

#[test]
fn pingreq_gets_pingresp() {
    let mut h = connected();
    let (actions, r) = receive(&mut h, &Packet::Pingreq);
    assert!(r.is_ok());
    assert!(matches!(actions.as_slice(), [Action::SendClient(Packet::Pingresp)]));
    let (_, r) = receive(&mut h, &Packet::Pingresp);
    assert!(matches!(r, Err(Error::MQTTProtocolViolation(_))));
}

#[test]
fn forbidden_packets_from_client() {
    let mut h = connected();
    for p in [
        Packet::Connack(Connack { session_present: false, code: ConnectReturnCode::Accepted }),
        Packet::Unsuback(pid(1)),
    ] {
        let (actions, r) = receive(&mut h, &p);
        assert!(matches!(r, Err(Error::MQTTProtocolViolation(_))));
        assert!(actions.is_empty());
    }
}

#[test]
fn publish_qos1_is_acknowledged_and_forwarded() {
    let mut h = connected();
    let p = Packet::Publish(Publish {
        dup: false,
        qospid: QosPid::AtLeastOnce(pid(3)),
        retain: false,
        topic_name: "t".into(),
        payload: b"x".to_vec(),
    });
    let (actions, r) = receive(&mut h, &p);
    assert!(r.is_ok());
    assert_eq!(actions.len(), 2);
    assert!(matches!(&actions[0], Action::SendClient(Packet::Puback(q)) if *q == pid(3)));
    match &actions[1] {
        Action::SendBroker(BrokerMsg::Publish { client, topic_name, payload, .. }) => {
            assert_eq!(client, "test-client");
            assert_eq!(topic_name, "t");
            assert_eq!(payload, b"x");
        }
        other => panic!("unexpected {:?}", other),
    }
}

#[test]
fn publish_qos2_runs_the_exchange() {
    let mut h = connected();
    let p = Packet::Publish(Publish {
        dup: false,
        qospid: QosPid::ExactlyOnce(pid(4)),
        retain: false,
        topic_name: "t".into(),
        payload: vec![],
    });
    let (actions, r) = receive(&mut h, &p);
    assert!(r.is_ok());
    assert!(matches!(&actions[0], Action::SendClient(Packet::Pubrec(q)) if *q == pid(4)));
    assert!(h.get_session().unwrap().qos_tracker(pid(4)).is_some());
    let (actions, r) = receive(&mut h, &Packet::Pubrel(pid(4)));
    assert!(r.is_ok());
    assert!(matches!(actions.as_slice(), [Action::SendClient(Packet::Pubcomp(q))] if *q == pid(4)));
    assert!(h.get_session().unwrap().qos_tracker(pid(4)).is_none());
}

#[test]
fn subscribe_is_acknowledged_and_forwarded() {
    let mut h = connected();
    let p = Packet::Subscribe(Subscribe {
        pid: pid(9),
        topics: vec![
            SubscribeTopic { topic_path: "a".into(), qos: QoS::AtLeastOnce },
            SubscribeTopic { topic_path: "b".into(), qos: QoS::AtMostOnce },
        ],
    });
    let (actions, r) = receive(&mut h, &p);
    assert!(r.is_ok());
    assert_eq!(actions.len(), 2);
    match &actions[0] {
        Action::SendClient(Packet::Suback(s)) => {
            assert_eq!(s.pid, pid(9));
            assert_eq!(
                s.return_codes,
                vec![SubscribeReturnCodes::Success(QoS::AtMostOnce), SubscribeReturnCodes::Success(QoS::AtMostOnce)]
            );
        }
        other => panic!("unexpected {:?}", other),
    }
    match &actions[1] {
        Action::SendBroker(BrokerMsg::Subscribe { client, pid: p, topics }) => {
            assert_eq!(client, "test-client");
            assert_eq!(*p, pid(9));
            assert_eq!(topics, &vec!["a".to_string(), "b".to_string()]);
        }
        other => panic!("unexpected {:?}", other),
    }
    let (actions, r) = receive(&mut h, &Packet::Subscribe(Subscribe { pid: pid(1), topics: vec![] }));
    assert!(matches!(r, Err(Error::MQTTProtocolViolation(_))));
    assert!(actions.is_empty());
}

#[test]
fn unsubscribe_is_forwarded_then_acknowledged() {
    let mut h = connected();
    let p = Packet::Unsubscribe(Unsubscribe { pid: pid(2), topics: vec!["a".into()] });
    let (actions, r) = receive(&mut h, &p);
    assert!(r.is_ok());
    assert!(matches!(&actions[0], Action::SendBroker(BrokerMsg::Unsubscribe { topics, .. }) if topics == &vec!["a".to_string()]));
    assert!(matches!(&actions[1], Action::SendClient(Packet::Unsuback(q)) if *q == pid(2)));
    let (_, r) = receive(&mut h, &Packet::Unsubscribe(Unsubscribe { pid: pid(2), topics: vec![] }));
    assert!(matches!(r, Err(Error::MQTTProtocolViolation(_))));
}

#[test]
fn broker_publish_starts_qos_exchange() {
    let mut h = connected();
    let s = h.decode_broker_msg(BrokerMsg::Publish {
        client: "other".into(),
        dup: false,
        qospid: QosPid::AtLeastOnce(pid(5)),
        retain: false,
        topic_name: "t".into(),
        payload: vec![1],
    });
    assert!(s.result.is_ok());
    assert!(matches!(&s.actions[0], Action::SendClient(Packet::Publish(p)) if p.topic_name == "t"));
    assert!(h.get_session().unwrap().qos_tracker(pid(5)).unwrap().retrying());
    let (_, r) = receive(&mut h, &Packet::Puback(pid(5)));
    assert!(r.is_ok());
    assert!(h.get_session().unwrap().qos_tracker(pid(5)).is_none());
}

#[test]
fn qos_retry_resends_packet() {
    let mut h = connected();
    let s = h.decode_broker_msg(BrokerMsg::QoSRetry { client: "test-client".into(), packet: Packet::Pubrel(pid(6)) });
    assert!(s.result.is_ok());
    assert!(matches!(s.actions.as_slice(), [Action::SendClient(Packet::Pubrel(q))] if *q == pid(6)));
}

#[test]
fn connection_timeout() {
    let mut h = handler();
    let s = h.decode_broker_msg(BrokerMsg::ClientConnectionTimeout);
    assert!(matches!(s.result, Err(Error::MQTTProtocolViolation(_))));
    let mut h = connected();
    let s = h.decode_broker_msg(BrokerMsg::ClientConnectionTimeout);
    assert!(s.result.is_ok());
    assert!(h.handle_connection_timeout().is_ok());
}

#[test]
fn last_will_published_on_unexpected_disconnect() {
    let will = LastWill { topic: "will/t".into(), message: b"bye".to_vec(), qos: QoS::AtLeastOnce, retain: true };
    let mut h = handler();
    let (_, r) = receive(&mut h, &connect_packet(Some(will)));
    assert!(r.is_ok());
    let actions = h.on_client_disconnect();
    assert_eq!(actions.len(), 2);
    match &actions[0] {
        Action::SendBroker(BrokerMsg::Publish { client, dup, qospid, retain, topic_name, payload }) => {
            assert_eq!(client, "test-client");
            assert!(!dup);
            assert_eq!(*qospid, QosPid::AtLeastOnce(Pid::new()));
            assert!(*retain);
            assert_eq!(topic_name, "will/t");
            assert_eq!(payload, b"bye");
        }
        other => panic!("unexpected {:?}", other),
    }
    assert!(matches!(&actions[1], Action::SendBroker(BrokerMsg::ClientDisconnected { client }) if client == "test-client"));
}

#[test]
fn no_last_will_after_disconnect_packet() {
    let will = LastWill { topic: "w".into(), message: vec![], qos: QoS::AtMostOnce, retain: false };
    let mut h = handler();
    receive(&mut h, &connect_packet(Some(will)));
    let (_, r) = receive(&mut h, &Packet::Disconnect);
    assert!(r.is_ok());
    assert!(h.disconnect_pkt_seen());
    let actions = h.on_client_disconnect();
    assert_eq!(actions.len(), 1);
    assert!(matches!(&actions[0], Action::SendBroker(BrokerMsg::ClientDisconnected { .. })));
}

#[test]
fn stray_acknowledgement_is_a_violation() {
    let mut h = connected();
    let (actions, r) = receive(&mut h, &Packet::Puback(pid(9)));
    assert!(matches!(r, Err(Error::MQTTProtocolViolation(_))));
    assert!(actions.is_empty());
    let (actions, r) = receive(&mut h, &Packet::Pubrel(pid(9)));
    assert!(matches!(r, Err(Error::MQTTProtocolViolation(_))));
    assert!(actions.is_empty());
}
