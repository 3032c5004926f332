use mqtt_toolkit::cli::shell::Shell;
use mqtt_toolkit::cli::spec::{CommandSet, ReturnCode};
use mqtt_toolkit::client::RecvTimeoutError;
use mqtt_toolkit::commands::connack::{connack, connack_packet, string_to_connect_return_code};
use mqtt_toolkit::commands::connect::{connect, connect_options, connect_packet, ConnackTimeoutError};
use mqtt_toolkit::commands::publish::{
    publish, publish_request, AtLeastOnceWait, ExactlyOnce, ExactlyOncePhase, WaitEvent, WaitStep,
};
use mqtt_toolkit::commands::subscribe::{
    check_suback, check_unsuback, publish_answer, subscribe, subscribe_request, unsubscribe_for, NextWait,
    ReceiveExactlyOnce, SubackWarning, UnsubAckTimeoutError,
};
use mqtt_toolkit::commands::unsubscribe::{unsubscribe, unsubscribe_request, UnsubackTimeoutError};
use mqtt_toolkit::commands::util::prompt_text;
use mqtt_toolkit::commands::{disconnect::disconnect, ping::ping, toggle_debug::toggle_debug, CommandError};
use mqtt_toolkit::mqtt::packet::{
    Connack, ConnectReturnCode, Packet, Pid, QoS, QosPid, Suback, SubscribeReturnCodes, SubscribeTopic,
};

fn shell() -> Shell {
    let mut set = CommandSet::new();
    for c in [connect(), connack(), publish(), subscribe(), unsubscribe(), disconnect(), ping(), toggle_debug()] {
        set.insert(c.name().to_string(), c);
    }
    Shell::new(set, "MQTT shell.")
}

fn pid(n: u16) -> Pid {
    Pid::from_u16(n).unwrap()
}

#[test]
fn command_names() {
    let sh = shell();
    for name in ["connect", "connack", "publish", "subscribe", "unsubscribe", "disconnect", "ping", "debug"] {
        assert_eq!(sh.find_command_spec(name).unwrap().name(), name);
    }
    assert_eq!(connect().flags().len(), 10);
    assert_eq!(publish().flags().len(), 3);
    assert_eq!(ReturnCode::Abort, ReturnCode::Abort);
    assert_ne!(ReturnCode::Continue, ReturnCode::Abort);
}

#[test]
fn return_codes_by_name() {
    assert_eq!(string_to_connect_return_code("NotAuthorized"), ConnectReturnCode::NotAuthorized);
    assert_eq!(string_to_connect_return_code("ServerUnavailable"), ConnectReturnCode::ServerUnavailable);
    assert_eq!(string_to_connect_return_code("RefusedProtocolVersion"), ConnectReturnCode::RefusedProtocolVersion);
    assert_eq!(string_to_connect_return_code("BadUsernamePassword"), ConnectReturnCode::BadUsernamePassword);
    assert_eq!(string_to_connect_return_code("RefusedIdentifierRejected"), ConnectReturnCode::RefusedIdentifierRejected);
    assert_eq!(string_to_connect_return_code("whatever"), ConnectReturnCode::Accepted);
}

#[test]
fn connack_packet_from_flags() {
    let sh = shell();
    let c = sh.parse("connack -s -c NotAuthorized").unwrap().unwrap();
    match connack_packet(&c) {
        Packet::Connack(Connack { session_present, code }) => {
            assert!(session_present);
            assert_eq!(code, ConnectReturnCode::NotAuthorized);
        }
        _ => panic!("not a connack"),
    }
    let c = sh.parse("connack").unwrap().unwrap();
    match connack_packet(&c) {
        Packet::Connack(Connack { session_present, code }) => {
            assert!(!session_present);
            assert_eq!(code, ConnectReturnCode::Accepted);
        }
        _ => panic!("not a connack"),
    }
}

#[test]
fn connect_defaults() {
    let sh = shell();
    let c = sh.parse("connect").unwrap().unwrap();
    let o = connect_options(&c, "127.0.0.1", 1883, "mqtt-cli").unwrap();
    assert_eq!(o.keep_alive, 0);
    assert_eq!(o.hostname, "127.0.0.1");
    assert_eq!(o.port, 1883);
    assert_eq!(o.client_id, "mqtt-cli");
    assert!(o.last_will.is_none());
    match connect_packet(&o) {
        Packet::Connect(p) => {
            assert_eq!(p.client_id, "mqtt-cli");
            assert_eq!(p.username.as_deref(), Some("mqtt-cli"));
            assert!(p.clean_session);
            assert!(p.password.is_none());
        }
        _ => panic!("not a connect"),
    }
}

#[test]
fn connect_with_will() {
    let sh = shell();
    let c = sh.parse("connect -h example -p 1999 -k 10 -u me -w bye -t last -q 2 -r").unwrap().unwrap();
    let o = connect_options(&c, "127.0.0.1", 1883, "mqtt-cli").unwrap();
    assert_eq!(o.keep_alive, 10);
    assert_eq!(o.hostname, "example");
    assert_eq!(o.port, 1999);
    assert_eq!(o.client_id, "me");
    let lw = o.last_will.unwrap();
    assert_eq!(lw.topic, "last");
    assert_eq!(lw.message, b"bye".to_vec());
    assert_eq!(lw.qos, QoS::ExactlyOnce);
    assert!(lw.retain);
}

#[test]
fn connect_errors() {
    let sh = shell();
    let c = sh.parse("connect -k ten").unwrap().unwrap();
    assert!(matches!(connect_options(&c, "h", 1, "id"), Err(CommandError::InvalidValue(_))));
    let c = sh.parse("connect -p 70000").unwrap().unwrap();
    assert!(matches!(connect_options(&c, "h", 1, "id"), Err(CommandError::InvalidValue(_))));
    let c = sh.parse("connect -w bye -q 3").unwrap().unwrap();
    match connect_options(&c, "h", 1, "id") {
        Err(CommandError::Failed(m)) => assert_eq!(m, "Invalid will_qos specified: 3. Expected 0, 1 or 2."),
        _ => panic!("expected a failure"),
    }
    // a level above 2 without a will message is not checked
    let c = sh.parse("connect -q 3").unwrap().unwrap();
    assert!(connect_options(&c, "h", 1, "id").is_ok());
    assert_eq!(ConnackTimeoutError(RecvTimeoutError::Timeout).message(), "Timeout waiting for CONNACK.");
    assert_eq!(
        ConnackTimeoutError(RecvTimeoutError::Disconnected).message(),
        "Disconnected while waiting for CONNACK."
    );
}

#[test]
fn publish_requests() {
    let sh = shell();
    let c = sh.parse("publish -q 2 a/b hello").unwrap().unwrap();
    let p = publish_request(&c).unwrap();
    assert_eq!(p.qospid, QosPid::ExactlyOnce(Pid::new()));
    assert_eq!(p.topic_name, "a/b");
    assert_eq!(p.payload, b"hello".to_vec());
    assert!(!p.dup && !p.retain);
    let c = sh.parse("publish -q 7 a b").unwrap().unwrap();
    assert_eq!(publish_request(&c).unwrap().qospid, QosPid::AtMostOnce);
    let c = sh.parse("publish a").unwrap().unwrap();
    match publish_request(&c) {
        Err(CommandError::Failed(m)) => assert_eq!(m, "need to specify message to publish"),
        _ => panic!("expected a failure"),
    }
    let c = sh.parse("publish").unwrap().unwrap();
    match publish_request(&c) {
        Err(CommandError::Failed(m)) => assert_eq!(m, "need to specify topic to publish."),
        _ => panic!("expected a failure"),
    }
    let c = sh.parse("publish -q x a b").unwrap().unwrap();
    assert!(matches!(publish_request(&c), Err(CommandError::InvalidValue(_))));
}

#[test]
fn qos1_wait() {
    let mut w = AtLeastOnceWait::new(pid(1), 2);
    assert_eq!(w.step(WaitEvent::Received(Packet::Pingresp)), WaitStep::Wait);
    assert_eq!(w.step(WaitEvent::Received(Packet::Puback(pid(2)))), WaitStep::Wait);
    assert_eq!(w.step(WaitEvent::Timeout), WaitStep::Resend);
    assert_eq!(w.step(WaitEvent::Timeout), WaitStep::Resend);
    assert_eq!(w.step(WaitEvent::Timeout), WaitStep::GiveUp);
    assert_eq!(w.step(WaitEvent::Received(Packet::Puback(pid(1)))), WaitStep::Done);
}

#[test]
fn qos2_send_exchange() {
    let mut x = ExactlyOnce::new(pid(1), 5);
    assert!(x.can_wait());
    assert_eq!(x.step(WaitEvent::Timeout), WaitStep::Resend);
    assert_eq!(x.step(WaitEvent::Received(Packet::Pubrec(pid(1)))), WaitStep::SendPubrel);
    assert_eq!(x.phase, ExactlyOncePhase::PubrelSent);
    assert_eq!(x.step(WaitEvent::Received(Packet::Pubrec(pid(1)))), WaitStep::Wait);
    assert_eq!(x.step(WaitEvent::Received(Packet::Pubcomp(pid(1)))), WaitStep::Done);
    let mut x = ExactlyOnce::new(pid(1), 1);
    assert_eq!(x.step(WaitEvent::Timeout), WaitStep::Resend);
    assert!(!x.can_wait());
    assert_eq!(x.timeout_message(), "Timeout waiting on pubrec.");
    assert_eq!(ExactlyOnce::new(pid(1), 0).can_wait(), false);
}

#[test]
fn subscribe_requests() {
    let sh = shell();
    let c = sh.parse("subscribe a b").unwrap().unwrap();
    let s = subscribe_request(&c).unwrap();
    assert_eq!(s.pid, Pid::new());
    assert_eq!(
        s.topics,
        vec![
            SubscribeTopic { topic_path: "a".into(), qos: QoS::AtMostOnce },
            SubscribeTopic { topic_path: "b".into(), qos: QoS::AtMostOnce }
        ]
    );
    let u = unsubscribe_for(&s);
    assert_eq!(u.pid, s.pid);
    assert_eq!(u.topics, vec!["a".to_string(), "b".to_string()]);
    let c = sh.parse("subscribe").unwrap().unwrap();
    match subscribe_request(&c) {
        Err(CommandError::Failed(m)) => assert_eq!(m, "Must provide at least one topic path to subscribe to."),
        _ => panic!("expected a failure"),
    }
}

#[test]
fn suback_checks() {
    let topics = vec![
        SubscribeTopic { topic_path: "a".into(), qos: QoS::AtMostOnce },
        SubscribeTopic { topic_path: "b".into(), qos: QoS::AtMostOnce },
    ];
    let suback = Suback {
        pid: pid(1),
        return_codes: vec![SubscribeReturnCodes::Success(QoS::AtLeastOnce), SubscribeReturnCodes::Failure],
    };
    let (codes, warnings) = check_suback(pid(1), &topics, &suback).unwrap();
    assert_eq!(codes, suback.return_codes);
    assert_eq!(
        warnings,
        vec![
            SubackWarning::QosMismatch { index: 0, expected: QoS::AtMostOnce, actual: QoS::AtLeastOnce },
            SubackWarning::Failure { index: 1 }
        ]
    );
    let ok = Suback { pid: pid(1), return_codes: vec![SubscribeReturnCodes::Success(QoS::AtMostOnce)] };
    assert!(check_suback(pid(1), &topics, &ok).unwrap().1.is_empty());
    assert!(matches!(check_suback(pid(2), &topics, &suback), Err(CommandError::Failed(_))));
    assert!(matches!(check_unsuback(pid(1), &Packet::Unsuback(pid(1))), Ok(true)));
    assert!(matches!(check_unsuback(pid(1), &Packet::Unsuback(pid(2))), Ok(false)));
    assert!(matches!(check_unsuback(pid(1), &Packet::Pingresp), Err(CommandError::Failed(_))));
    assert_eq!(UnsubAckTimeoutError(RecvTimeoutError::Timeout).message(), "Timeout waiting for UNSUBACK.");
}

#[test]
fn subscriber_answers() {
    assert!(publish_answer(QosPid::AtMostOnce).is_none());
    assert!(matches!(publish_answer(QosPid::AtLeastOnce(pid(3))), Some(Packet::Puback(p)) if p == pid(3)));
    assert!(matches!(publish_answer(QosPid::ExactlyOnce(pid(4))), Some(Packet::Pubrec(p)) if p == pid(4)));
    let mut r = ReceiveExactlyOnce::new(pid(4), 2);
    assert_eq!(r.next(), NextWait::Receive);
    assert_eq!(r.step(WaitEvent::Timeout), WaitStep::Resend);
    assert_eq!(r.step(WaitEvent::Received(Packet::Pingresp)), WaitStep::Wait);
    assert_eq!(r.next(), NextWait::Receive);
    assert_eq!(r.step(WaitEvent::Received(Packet::Pubrel(pid(4)))), WaitStep::Done);
    let mut r = ReceiveExactlyOnce::new(pid(4), 1);
    assert_eq!(r.step(WaitEvent::Timeout), WaitStep::Resend);
    assert_eq!(r.next(), NextWait::TimedOut);
    assert_eq!(ReceiveExactlyOnce::new(pid(4), 0).next(), NextWait::Complete);
}

#[test]
fn unsubscribe_requests() {
    let sh = shell();
    let c = sh.parse("unsubscribe x y").unwrap().unwrap();
    let u = unsubscribe_request(&c).unwrap();
    assert_eq!(u.pid, Pid::new());
    assert_eq!(u.topics, vec!["x".to_string(), "y".to_string()]);
    let c = sh.parse("unsubscribe").unwrap().unwrap();
    assert!(matches!(unsubscribe_request(&c), Err(CommandError::Failed(_))));
    assert_eq!(
        UnsubackTimeoutError(RecvTimeoutError::Disconnected).message(),
        "Disconnected while waiting for UNSUBACK."
    );
}

#[test]
fn prompt() {
    assert_eq!(prompt_text("mqtt-cli", "127.0.0.1", 1883, false), "mqtt-cli@127.0.0.1:1883");
    assert_eq!(prompt_text("c", "h", 7, true), "c@h:7 [DEBUG]");
}
