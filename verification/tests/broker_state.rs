use mqtt_toolkit::broker::config::{IpAddress, SocketAddress};
use mqtt_toolkit::broker::msg::BrokerMsg;
use mqtt_toolkit::broker::{Broker, Config};
use mqtt_toolkit::mqtt::packet::{Pid, QosPid};

fn config() -> Config {
    Config::new(IpAddress::V4(127, 0, 0, 1), 1883, 0, 5, 30)
}

fn broker() -> Broker<u32> {
    let mut b = Broker::new(config());
    b.handle_client_connected("alice".to_string(), 1);
    b.handle_client_connected("bob".to_string(), 2);
    b.handle_client_connected("carol".to_string(), 3);
    b
}

fn recipients(out: &[(String, BrokerMsg<u32>)]) -> Vec<String> {
    let mut r: Vec<String> = out.iter().map(|(c, _)| c.clone()).collect();
    r.sort();
    r
}

#[test]
fn config_fields() {
    let c = config();
    assert_eq!(c.addr, SocketAddress { ip: IpAddress::V4(127, 0, 0, 1), port: 1883 });
    assert_eq!(c.max_retries, 0);
    assert_eq!(c.retry_interval, 5);
    assert_eq!(c.timeout_interval, 30);
}

#[test]
fn subscriber_receives_publish() {
    let mut b = broker();
    b.handle_subscribe("bob".to_string(), vec!["a/b".to_string()]);
    b.handle_subscribe("carol".to_string(), vec!["a/b".to_string(), "x".to_string()]);
    let out = b.handle_publish("alice".to_string(), false, QosPid::AtMostOnce, false, "a/b".to_string(), b"hi".to_vec());
    assert_eq!(recipients(&out), vec!["bob".to_string(), "carol".to_string()]);
    for (_, m) in out.iter() {
        match m {
            BrokerMsg::Publish { client, topic_name, payload, .. } => {
                assert_eq!(client, "alice");
                assert_eq!(topic_name, "a/b");
                assert_eq!(payload, b"hi");
            }
            _ => panic!("not a publish"),
        }
    }
}

#[test]
fn publisher_does_not_receive_own_publish() {
    let mut b = broker();
    b.handle_subscribe("alice".to_string(), vec!["t".to_string()]);
    b.handle_subscribe("bob".to_string(), vec!["t".to_string()]);
    let out = b.handle_publish("alice".to_string(), false, QosPid::AtLeastOnce(Pid::new()), false, "t".to_string(), vec![]);
    assert_eq!(recipients(&out), vec!["bob".to_string()]);
}

#[test]
fn unsubscribe_undoes_subscribe() {
    let mut b = broker();
    b.handle_subscribe("bob".to_string(), vec!["t".to_string()]);
    b.handle_unsubscribe("bob".to_string(), vec!["t".to_string()]);
    let out = b.handle_publish("alice".to_string(), false, QosPid::AtMostOnce, false, "t".to_string(), vec![]);
    assert!(out.is_empty());
}

#[test]
fn subscribe_twice_delivers_once() {
    let mut b = broker();
    b.handle_subscribe("bob".to_string(), vec!["t".to_string(), "t".to_string()]);
    b.handle_subscribe("bob".to_string(), vec!["t".to_string()]);
    let out = b.handle_publish("alice".to_string(), false, QosPid::AtMostOnce, false, "t".to_string(), vec![]);
    assert_eq!(recipients(&out), vec!["bob".to_string()]);
    assert_eq!(b.subscribers("t").unwrap().len(), 1);
}

#[test]
fn disconnected_client_receives_nothing() {
    let mut b = broker();
    b.handle_subscribe("bob".to_string(), vec!["t".to_string()]);
    b.handle_client_disconnected("bob".to_string());
    assert!(b.client_tx("bob").is_none());
    let out = b.handle_publish("alice".to_string(), false, QosPid::AtMostOnce, false, "t".to_string(), vec![]);
    assert!(out.is_empty());
}

#[test]
fn disconnect_removes_client_from_every_subscription() {
    let mut b = broker();
    b.handle_subscribe("bob".to_string(), vec!["t".to_string(), "u".to_string()]);
    b.handle_subscribe("carol".to_string(), vec!["t".to_string()]);
    b.handle_client_disconnected("bob".to_string());
    assert!(!b.subscribers("t").unwrap().contains("bob"));
    assert!(!b.subscribers("u").unwrap().contains("bob"));
    assert!(b.subscribers("t").unwrap().contains("carol"));
    // a client that was never connected still leaves every set
    b.handle_subscribe("dave".to_string(), vec!["t".to_string()]);
    b.handle_client_disconnected("dave".to_string());
    assert!(!b.subscribers("t").unwrap().contains("dave"));
}

#[test]
fn publish_to_new_topic_creates_entry() {
    let mut b = broker();
    assert!(b.subscribers("fresh").is_none());
    let out = b.handle_publish("alice".to_string(), false, QosPid::AtMostOnce, false, "fresh".to_string(), vec![]);
    assert!(out.is_empty());
    assert_eq!(b.subscribers("fresh").unwrap().len(), 0);
}

#[test]
fn broker_messages_dispatch() {
    let mut b: Broker<u32> = Broker::new(config());
    let out = b.handle_broker_msg(BrokerMsg::ClientConnected { client: "a".to_string(), client_tx: 9 });
    assert!(out.is_empty());
    assert_eq!(b.client_tx("a"), Some(&9));
    b.handle_broker_msg(BrokerMsg::ClientConnected { client: "b".to_string(), client_tx: 8 });
    b.handle_broker_msg(BrokerMsg::Subscribe { client: "b".to_string(), pid: Pid::new(), topics: vec!["t".to_string()] });
    let out = b.handle_broker_msg(BrokerMsg::Publish {
        client: "a".to_string(),
        dup: false,
        qospid: QosPid::AtMostOnce,
        retain: false,
        topic_name: "t".to_string(),
        payload: vec![1, 2],
    });
    assert_eq!(recipients(&out), vec!["b".to_string()]);
    b.handle_broker_msg(BrokerMsg::Unsubscribe { client: "b".to_string(), pid: Pid::new(), topics: vec!["t".to_string()] });
    let out = b.handle_broker_msg(BrokerMsg::Publish {
        client: "a".to_string(),
        dup: false,
        qospid: QosPid::AtMostOnce,
        retain: false,
        topic_name: "t".to_string(),
        payload: vec![],
    });
    assert!(out.is_empty());
    let out = b.handle_broker_msg(BrokerMsg::ClientDisconnected { client: "a".to_string() });
    assert!(out.is_empty());
    assert!(b.client_tx("a").is_none());
    assert!(b.handle_broker_msg(BrokerMsg::ClientConnectionTimeout).is_empty());
}
