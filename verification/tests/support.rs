use mqtt_toolkit::cli::command::operand::error::MissingOperandError;
use mqtt_toolkit::client::keep_alive::{KeepAlive, Msg, Reaction, Wake};
use mqtt_toolkit::client::tcp::{on_read, on_write_request, MqttPacketTx, PacketRx, PacketTx, ReadOutcome, ReadReaction, WriteReaction};
use mqtt_toolkit::client::BrokerAddr;
use mqtt_toolkit::command::arg::Arg;
use mqtt_toolkit::command::operand::Operand;
use mqtt_toolkit::command::value::FromArg;
use mqtt_toolkit::mqtt::packet::Pid;
use mqtt_toolkit::ports::{drop_port, get_port, PortPool, PortRef};
use mqtt_toolkit::text::{replace, split_whitespace};

#[test]
fn broker_addr_default() {
    let a = BrokerAddr::new();
    assert_eq!(a.hostname, "127.0.0.1");
    assert_eq!(a.port, 1883);
}

#[test]
fn numbers_from_text() {
    assert_eq!(u16::from_arg("1883").ok(), Some(1883));
    assert_eq!(u16::from_arg("+7").ok(), Some(7));
    assert_eq!(u16::from_arg("65535").ok(), Some(65535));
    assert!(u16::from_arg("65536").is_err());
    assert!(u16::from_arg("").is_err());
    assert!(u16::from_arg("+").is_err());
    assert!(u16::from_arg("-1").is_err());
    assert!(u16::from_arg(" 1").is_err());
    assert_eq!(u8::from_arg("255").ok(), Some(255));
    assert!(u8::from_arg("256").is_err());
    assert_eq!(String::from_arg("any text").ok(), Some("any text".to_string()));
}

#[test]
fn arg_values() {
    assert_eq!(Arg::Required("12".into()).get_as::<u16>().unwrap(), Some(12));
    assert_eq!(Arg::Optional(Some("3".into())).get_as::<u8>().unwrap(), Some(3));
    assert_eq!(Arg::NoArg.get_as::<u8>().unwrap(), None);
    assert!(Arg::Required("x".into()).get_as::<u8>().is_err());
    assert_eq!(Arg::Required("v".into()).raw(), Some("v".to_string()));
    assert_eq!(Arg::Optional(None).raw(), None);
    assert_eq!(Arg::NoArg.raw(), None);
    let s: Option<String> = Arg::Required("w".into()).get().unwrap();
    assert_eq!(s, Some("w".to_string()));
    let n: Option<String> = Arg::NoArg.get().unwrap();
    assert_eq!(n, None);
    assert_eq!(Arg::Required("c".into()).clone(), Arg::Required("c".into()));
}

#[test]
fn operands() {
    let o = Operand::new("42");
    assert_eq!(o.value(), "42");
    assert_eq!(o.get_as::<u16>().ok(), Some(42));
    assert!(o.get_as::<u8>().is_ok());
    assert!(Operand::new("x").get_as::<u16>().is_err());
    let e = MissingOperandError(vec![Operand::new("a")], 12);
    assert_eq!(e.message(), "not enough operands provided. Received 1, expected 12");
}

#[test]
fn keep_alive_timer() {
    let mut k = KeepAlive::new();
    assert_eq!(k.on_wake(Wake::Timeout), Reaction::Ping);
    assert_eq!(k.on_wake(Wake::Timeout), Reaction::Ping);
    assert_eq!(k.on_wake(Wake::Received(Msg::Reset)), Reaction::Wait);
    assert_eq!(k.on_wake(Wake::Received(Msg::Suspend)), Reaction::Wait);
    assert!(k.suspended);
    assert_eq!(k.on_wake(Wake::Timeout), Reaction::Wait);
    assert_eq!(k.on_wake(Wake::Timeout), Reaction::Wait);
    assert_eq!(k.on_wake(Wake::Received(Msg::Resume)), Reaction::Wait);
    assert!(!k.suspended);
    assert_eq!(k.on_wake(Wake::Timeout), Reaction::Ping);
    assert_eq!(k.on_wake(Wake::Received(Msg::Kill)), Reaction::Stop);
    assert_eq!(KeepAlive::new().on_wake(Wake::Disconnected), Reaction::Stop);
    assert_eq!(Msg::Suspend.name(), "Suspend");
}

#[test]
fn tcp_decisions() {
    assert!(matches!(on_read(ReadOutcome::Data(vec![])), ReadReaction::Closed));
    match on_read(ReadOutcome::Data(vec![1, 2])) {
        ReadReaction::Forward(PacketRx::Mqtt(p)) => assert_eq!(p.buf, vec![1, 2]),
        other => panic!("unexpected {:?}", other),
    }
    assert!(matches!(on_read(ReadOutcome::Idle), ReadReaction::Continue));
    assert!(matches!(on_read(ReadOutcome::Failed), ReadReaction::Stop));
    match on_write_request(PacketTx::Mqtt(MqttPacketTx { pkt: vec![9], keep_alive: true }), true) {
        WriteReaction::Write(bytes, reset) => {
            assert_eq!(bytes, vec![9]);
            assert!(reset);
        }
        other => panic!("unexpected {:?}", other),
    }
    match on_write_request(PacketTx::Mqtt(MqttPacketTx { pkt: vec![], keep_alive: true }), false) {
        WriteReaction::Write(_, reset) => assert!(!reset),
        other => panic!("unexpected {:?}", other),
    }
    assert!(matches!(on_write_request(PacketTx::Close, true), WriteReaction::Stop));
}

#[test]
fn ports_are_handed_out_once() {
    let mut pool = PortPool::new();
    let a = get_port(&mut pool).unwrap();
    let b = get_port(&mut pool).unwrap();
    assert_eq!(a, PortRef(1883));
    assert_eq!(b, PortRef(1884));
    assert_eq!(a.to_text(), "1883");
    drop_port(&mut pool, 1883);
    assert!(!pool.in_use().contains(&1883));
    assert_eq!(get_port(&mut pool).unwrap(), PortRef(1885));
    assert_eq!(PortRef::from(5u16), PortRef(5));
    assert_eq!(u16::from(PortRef(7)), 7);
    assert_eq!(PortRef(42).to_text(), "42");
}

#[test]
fn port_pool_runs_out() {
    let mut pool = PortPool::new();
    let mut handed = 0;
    while get_port(&mut pool).is_ok() {
        handed += 1;
        assert!(handed <= 2000);
    }
    assert_eq!(handed, 1001);
    for p in 1883..=2883u16 {
        assert!(pool.in_use().contains(&p));
    }
    assert!(!pool.in_use().contains(&2884));
    drop_port(&mut pool, 2000);
    assert_eq!(get_port(&mut pool).unwrap(), PortRef(2000));
}

#[test]
fn port_pool_wraps_within_range() {
    let mut pool = PortPool::new();
    for _ in 0..1000 {
        get_port(&mut pool).unwrap();
    }
    // 1883..=2882 taken, last handed out 2882: the next one is 2883.
    assert_eq!(get_port(&mut pool).unwrap(), PortRef(2883));
    drop_port(&mut pool, 1900);
    assert_eq!(get_port(&mut pool).unwrap(), PortRef(1900));
}

#[test]
fn text_helpers() {
    assert_eq!(replace("a-b-c", "-", "_"), "a_b_c");
    assert_eq!(replace("aaa", "aa", "b"), "ba");
    assert_eq!(split_whitespace(" a\u{3000}b  c\n"), vec!["a", "b", "c"]);
    assert_eq!(Pid::new().get(), 1);
    assert!(Pid::from_u16(0).is_none());
}
