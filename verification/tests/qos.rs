use mqtt_toolkit::broker::config::IpAddress;
use mqtt_toolkit::broker::session::qos::{RetryTimer, Tracker, Update};
use mqtt_toolkit::broker::session::Session;
use mqtt_toolkit::broker::Config;
use mqtt_toolkit::error::Error;
use mqtt_toolkit::mqtt::packet::{Packet, Pid, Publish, QosPid};

fn pid(n: u16) -> Pid {
    Pid::from_u16(n).unwrap()
}

fn publish(qospid: QosPid) -> Packet {
    Packet::Publish(Publish { dup: false, qospid, retain: false, topic_name: "t".into(), payload: vec![] })
}

#[test]
fn tracker_starts_only_with_publish_or_pubrec() {
    assert!(Tracker::new(publish(QosPid::AtLeastOnce(pid(1)))).is_ok());
    assert!(Tracker::new(Packet::Pubrec(pid(1))).unwrap().retrying());
    assert!(matches!(Tracker::new(Packet::Puback(pid(1))), Err(Error::MQTTProtocolViolation(_))));
    assert!(matches!(Tracker::new(Packet::Pingreq), Err(Error::MQTTProtocolViolation(_))));
}

#[test]
fn qos1_exchange() {
    let mut t = Tracker::new(publish(QosPid::AtLeastOnce(pid(7)))).unwrap();
    assert_eq!(t.update("c", Packet::Puback(pid(7))).unwrap(), Update::Finished(pid(7)));
    assert!(!t.retrying());
    assert!(matches!(t.state(), Packet::Puback(_)));
}

#[test]
fn qos2_exchange() {
    let mut t = Tracker::new(publish(QosPid::ExactlyOnce(pid(2)))).unwrap();
    assert_eq!(t.update("c", Packet::Pubrec(pid(2))).unwrap(), Update::Active);
    assert!(t.retrying());
    assert_eq!(t.update("c", Packet::Pubrel(pid(2))).unwrap(), Update::Active);
    assert_eq!(t.update("c", Packet::Pubcomp(pid(2))).unwrap(), Update::Finished(pid(2)));
}

#[test]
fn wrong_packet_is_a_violation() {
    let mut t = Tracker::new(publish(QosPid::AtLeastOnce(pid(7)))).unwrap();
    assert!(matches!(t.update("c", Packet::Puback(pid(8))), Err(Error::MQTTProtocolViolation(_))));
    assert!(!t.retrying());
    assert!(matches!(t.state(), Packet::Publish(_)));
    assert!(matches!(t.update("c", Packet::Pubrec(pid(7))), Err(Error::MQTTProtocolViolation(_))));
    match t.update("client-1", Packet::Pubrec(pid(7))) {
        Err(Error::MQTTProtocolViolation(m)) => assert_eq!(
            m,
            "Received QoS update with invalid state. client = 'client-1', Expected = Puback, actual = Pubrec"
        ),
        other => panic!("unexpected {:?}", other),
    }
}

#[test]
fn qos0_or_finished_exchange_cannot_be_updated() {
    let mut t = Tracker::new(publish(QosPid::AtMostOnce)).unwrap();
    assert!(matches!(t.update("c", Packet::Puback(pid(1))), Err(Error::ClientHandlerInvalidState(_))));
    let mut t = Tracker::new(Packet::Pubrec(pid(1))).unwrap();
    t.update("c", Packet::Pubrel(pid(1))).unwrap();
    t.update("c", Packet::Pubcomp(pid(1))).unwrap();
    assert!(matches!(t.update("c", Packet::Pubcomp(pid(1))), Err(Error::ClientHandlerInvalidState(_))));
}

#[test]
fn session_tracks_and_drops_exchanges() {
    let config = Config::new(IpAddress::V4(0, 0, 0, 0), 1883, 0, 0, 30);
    let mut s: Session<u32> = Session::new("c", &config, None, 1);
    assert_eq!(s.id(), "c");
    assert!(s.last_will().is_none());
    assert_eq!(*s.client_tx(), 1);
    assert!(s.update_qos(pid(1), Packet::Pubrec(pid(1))).is_ok());
    assert!(s.qos_tracker(pid(1)).is_some());
    assert!(matches!(s.retransmission(pid(1)), Some(Packet::Pubrec(p)) if p == pid(1)));
    assert!(s.retransmission(pid(7)).is_none());
    s.update_qos(pid(1), Packet::Pubrel(pid(1))).unwrap();
    assert!(s.qos_tracker(pid(1)).is_some());
    s.update_qos(pid(1), Packet::Pubcomp(pid(1))).unwrap();
    assert!(s.qos_tracker(pid(1)).is_none());
    // a packet that cannot start an exchange is a protocol violation
    match s.update_qos(pid(2), Packet::Puback(pid(2))) {
        Err(Error::MQTTProtocolViolation(m)) => assert_eq!(m, "Can't start QoS transaction with packet: Puback"),
        other => panic!("unexpected {:?}", other),
    }
    assert!(s.qos_tracker(pid(2)).is_none());
    // a wrong packet keeps the exchange but stops its retransmission
    s.update_qos(pid(3), publish(QosPid::AtLeastOnce(pid(3)))).unwrap();
    s.update_qos(pid(3), Packet::Pubcomp(pid(3))).unwrap();
    assert!(!s.qos_tracker(pid(3)).unwrap().retrying());
    assert!(s.retransmission(pid(3)).is_none());
    assert!(s == Session::new("c", &config, None, 5));
}

#[test]
fn retry_timer_limits_resends() {
    let mut r = RetryTimer::new(2);
    let mut sends = 0;
    while r.next() {
        sends += 1;
    }
    assert_eq!(sends, 2);
    let mut r = RetryTimer::new(1);
    assert!(r.next());
    assert!(!r.next());
    let mut r = RetryTimer::new(0);
    for _ in 0..100 {
        assert!(r.next());
    }
}

#[test]
fn exchange_pids_of_packets() {
    let p = pid(9);
    assert_eq!(Packet::Puback(p).exchange_pid(), Some(p));
    assert_eq!(Packet::Pubrel(p).exchange_pid(), Some(p));
    assert_eq!(Packet::Pingreq.exchange_pid(), None);
    assert_eq!(publish(QosPid::AtMostOnce).exchange_pid(), None);
    assert_eq!(publish(QosPid::ExactlyOnce(p)).exchange_pid(), Some(p));
}
