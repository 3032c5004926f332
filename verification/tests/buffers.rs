use std::mem::size_of;

use mqtt_toolkit::mqtt::packet::{
    Connack, ConnectReturnCode, Packet, Pid, Publish, QoS, QosPid, Suback, Subscribe, SubscribeReturnCodes,
    SubscribeTopic, Unsubscribe,
};
use mqtt_toolkit::client::tcp::frame_received;
use mqtt_toolkit::error::Error;
use mqtt_toolkit::mqtt::packet::Protocol;
use mqtt_toolkit::mqtt::{client_buffer_len, decode, encode, encode_buffer_len, encode_client, frame_decodable};

fn pid(n: u16) -> Pid {
    Pid::from_u16(n).unwrap()
}

fn publish(payload: Vec<u8>) -> Packet {
    Packet::Publish(Publish {
        dup: false,
        qospid: QosPid::AtLeastOnce(pid(3)),
        retain: false,
        topic_name: "a/b".to_string(),
        payload,
    })
}

fn subscribe(paths: &[&str]) -> Packet {
    Packet::Subscribe(Subscribe {
        pid: pid(1),
        topics: paths
            .iter()
            .map(|p| SubscribeTopic { topic_path: p.to_string(), qos: QoS::AtMostOnce })
            .collect(),
    })
}

#[test]
fn broker_buffer_counts_publish_payload() {
    let base = size_of::<mqttrs::Packet>() + size_of::<mqttrs::Publish>();
    assert_eq!(encode_buffer_len(&publish(vec![])), Some(base));
    assert_eq!(encode_buffer_len(&publish(vec![7; 100])), Some(base + 100));
}

#[test]
fn broker_buffer_for_acks_and_signals() {
    let base = size_of::<mqttrs::Packet>();
    let pid_len = size_of::<mqttrs::Pid>();
    assert_eq!(encode_buffer_len(&Packet::Puback(pid(2))), Some(base + pid_len));
    assert_eq!(encode_buffer_len(&Packet::Unsuback(pid(2))), Some(base + pid_len));
    assert_eq!(encode_buffer_len(&Packet::Pingresp), Some(base));
    assert_eq!(
        encode_buffer_len(&Packet::Connack(Connack { session_present: false, code: ConnectReturnCode::Accepted })),
        Some(base + size_of::<mqttrs::Connack>())
    );
}

#[test]
fn broker_buffer_counts_topic_bytes() {
    let base = size_of::<mqttrs::Packet>();
    assert_eq!(
        encode_buffer_len(&subscribe(&["a/b", "héllo"])),
        Some(base + size_of::<mqttrs::Subscribe>() + 3 + 6)
    );
    let unsub = Packet::Unsubscribe(Unsubscribe { pid: pid(1), topics: vec!["x".to_string(), "yz".to_string()] });
    assert_eq!(encode_buffer_len(&unsub), Some(base + size_of::<mqttrs::Unsubscribe>() + 3));
    let suback = Packet::Suback(Suback {
        pid: pid(1),
        return_codes: vec![SubscribeReturnCodes::Success(QoS::AtMostOnce), SubscribeReturnCodes::Failure],
    });
    assert_eq!(
        encode_buffer_len(&suback),
        Some(base + size_of::<mqttrs::Suback>() + 2 * size_of::<mqttrs::SubscribeReturnCodes>())
    );
}

#[test]
fn client_buffer_by_packet_kind() {
    let base = size_of::<mqttrs::Packet>();
    assert_eq!(client_buffer_len(&Packet::Pingreq), Some(10));
    assert_eq!(client_buffer_len(&Packet::Disconnect), Some(2));
    assert_eq!(client_buffer_len(&Packet::Pubrel(pid(4))), Some(base + size_of::<mqttrs::Pid>()));
    assert_eq!(client_buffer_len(&Packet::Pubcomp(pid(4))), Some(base));
    assert_eq!(
        client_buffer_len(&publish(vec![1, 2, 3])),
        Some(base + size_of::<mqttrs::Publish>() + 3)
    );
    assert_eq!(client_buffer_len(&subscribe(&["abc"])), Some(size_of::<mqttrs::Subscribe>() + 3));
}

#[test]
fn topic_filters_from_and_to_text() {
    let t = SubscribeTopic::from("a/b".to_string());
    assert_eq!(t.topic_path, "a/b");
    assert_eq!(t.qos, QoS::AtMostOnce);
    assert_eq!(String::from(t), "a/b");
}

#[test]
fn received_frames_are_handed_on_whole() {
    assert_eq!(frame_received(&vec![0xD0, 0x00, 0x00]).unwrap(), vec![0xD0, 0x00, 0x00]);
    assert_eq!(frame_received(&vec![0x30]).unwrap(), vec![0x30]);
    assert!(frame_received(&vec![0xF0, 0x00]).is_err());
}

#[test]
fn decode_whole_packets() {
    let publish_bytes = [0b0011_0000u8, 11, 0, 4, b't', b'e', b's', b't', b'h', b'e', b'l', b'l', b'o'];
    assert!(frame_decodable(&publish_bytes));
    match decode(&publish_bytes).unwrap() {
        Some(Packet::Publish(p)) => {
            assert_eq!(p.topic_name, "test");
            assert_eq!(p.payload, b"hello".to_vec());
            assert_eq!(p.qospid, QosPid::AtMostOnce);
        }
        other => panic!("unexpected {:?}", other),
    }
    assert!(matches!(decode(&[0xD0, 0x00]).unwrap(), Some(Packet::Pingresp)));
    match decode(&[0x20, 0x02, 0x00, 0x00]).unwrap() {
        Some(Packet::Connack(c)) => {
            assert!(!c.session_present);
            assert_eq!(c.code, ConnectReturnCode::Accepted);
        }
        other => panic!("unexpected {:?}", other),
    }
    match decode(&[0x90, 0x04, 0x00, 0x01, 0x00, 0x80]).unwrap() {
        Some(Packet::Suback(s)) => {
            assert_eq!(s.pid, pid(1));
            assert_eq!(s.return_codes, vec![SubscribeReturnCodes::Success(QoS::AtMostOnce), SubscribeReturnCodes::Failure]);
        }
        other => panic!("unexpected {:?}", other),
    }
    match decode(&[0x82, 0x08, 0x00, 0x01, 0x00, 0x03, b'a', b'/', b'b', 0x01]).unwrap() {
        Some(Packet::Subscribe(s)) => {
            assert_eq!(s.pid, pid(1));
            assert_eq!(s.topics.len(), 1);
            assert_eq!(s.topics[0].topic_path, "a/b");
            assert_eq!(s.topics[0].qos, QoS::AtLeastOnce);
        }
        other => panic!("unexpected {:?}", other),
    }
    assert!(matches!(decode(&[0x40, 0x02, 0x00, 0x07]).unwrap(), Some(Packet::Puback(p)) if p == pid(7)));
}

#[test]
fn decode_connect_written_by_mqttrs() {
    let wire = mqttrs::Packet::Connect(mqttrs::Connect {
        protocol: mqttrs::Protocol::MQTT311,
        keep_alive: 30,
        client_id: "doc_client",
        clean_session: true,
        last_will: Some(mqttrs::LastWill { topic: "w", message: b"bye", qos: mqttrs::QoS::ExactlyOnce, retain: true }),
        username: Some("u"),
        password: None,
    });
    let mut buf = [0u8; 128];
    let n = mqttrs::encode_slice(&wire, &mut buf).unwrap();
    let bytes = &buf[..n];
    assert!(frame_decodable(bytes));
    match decode(bytes).unwrap() {
        Some(Packet::Connect(c)) => {
            assert_eq!(c.protocol, Protocol::MQTT311);
            assert_eq!(c.keep_alive, 30);
            assert_eq!(c.client_id, "doc_client");
            assert!(c.clean_session);
            assert_eq!(c.username.as_deref(), Some("u"));
            assert_eq!(c.password, None);
            let lw = c.last_will.unwrap();
            assert_eq!(lw.topic, "w");
            assert_eq!(lw.message, b"bye".to_vec());
            assert_eq!(lw.qos, QoS::ExactlyOnce);
            assert!(lw.retain);
        }
        other => panic!("unexpected {:?}", other),
    }
}

#[test]
fn decode_incomplete_invalid_and_truncated() {
    assert!(matches!(decode(&[]), Ok(None)));
    assert!(matches!(decode(&[0x30]), Ok(None)));
    assert!(matches!(decode(&[0x30, 0x05, 0x00]), Ok(None)));
    match decode(&[0xF0, 0x00]) {
        Err(Error::InvalidPacket(m)) => assert!(m.starts_with("Unable to decode packet: ")),
        other => panic!("unexpected {:?}", other),
    }
    // a Connack header announcing no body, at the end of the bytes
    assert!(!frame_decodable(&[0x20, 0x00]));
    assert!(frame_decodable(&[0x20, 0x00, 0x00, 0x00]));
    // a Puback whose identifier is missing
    assert!(!frame_decodable(&[0x40, 0x00]));
    // a Publish at QoS 1 whose identifier runs past the body
    assert!(!frame_decodable(&[0x32, 0x03, 0x00, 0x01, b'a']));
}

#[test]
fn encode_cuts_broker_buffer_to_packet() {
    assert_eq!(encode(&Packet::Pingresp).unwrap(), vec![0xD0, 0x00]);
    assert_eq!(encode(&Packet::Puback(pid(7))).unwrap(), vec![0x40, 0x02, 0x00, 0x07]);
    let connack = Packet::Connack(Connack { session_present: true, code: ConnectReturnCode::NotAuthorized });
    assert_eq!(encode(&connack).unwrap(), vec![0x20, 0x02, 0x01, 0x05]);
    let bytes = encode(&publish(b"hi".to_vec())).unwrap();
    assert_eq!(bytes, vec![0x32, 0x09, 0x00, 0x03, b'a', b'/', b'b', 0x00, 0x03, b'h', b'i']);
    match decode(&bytes).unwrap() {
        Some(Packet::Publish(p)) => {
            assert_eq!(p.topic_name, "a/b");
            assert_eq!(p.payload, b"hi".to_vec());
            assert_eq!(p.qospid, QosPid::AtLeastOnce(pid(3)));
        }
        other => panic!("unexpected {:?}", other),
    }
}

#[test]
fn encode_round_trips_subscriptions() {
    let bytes = encode(&subscribe(&["a/b"])).unwrap();
    match decode(&bytes).unwrap() {
        Some(Packet::Subscribe(s)) => {
            assert_eq!(s.pid, pid(1));
            assert_eq!(s.topics.len(), 1);
            assert_eq!(s.topics[0].topic_path, "a/b");
            assert_eq!(s.topics[0].qos, QoS::AtMostOnce);
        }
        other => panic!("unexpected {:?}", other),
    }
    let suback = Packet::Suback(Suback {
        pid: pid(4),
        return_codes: vec![SubscribeReturnCodes::Success(QoS::ExactlyOnce), SubscribeReturnCodes::Failure],
    });
    assert_eq!(encode(&suback).unwrap(), vec![0x90, 0x04, 0x00, 0x04, 0x02, 0x80]);
    let unsub = Packet::Unsubscribe(Unsubscribe { pid: pid(5), topics: vec!["x".to_string()] });
    assert_eq!(encode(&unsub).unwrap(), vec![0xA2, 0x05, 0x00, 0x05, 0x00, 0x01, b'x']);
}

#[test]
fn encode_client_sends_only_the_packet() {
    assert_eq!(encode_client(&Packet::Pingreq).unwrap(), vec![0xC0, 0x00]);
    assert_eq!(encode_client(&Packet::Disconnect).unwrap(), vec![0xE0, 0x00]);
    let connack = Packet::Connack(Connack { session_present: false, code: ConnectReturnCode::Accepted });
    assert_eq!(encode_client(&connack).unwrap(), vec![0x20, 0x02, 0x00, 0x00]);
}

#[test]
fn subscribe_with_bad_level_is_refused_not_overrun() {
    let bytes = [0x82u8, 0x09, 0x00, 0x01, 0x00, 0x01, b'a', 0x03, 0x00, 0x01, b'b'];
    assert!(frame_decodable(&bytes));
    assert!(matches!(decode(&bytes), Err(Error::InvalidPacket(_))));
}
