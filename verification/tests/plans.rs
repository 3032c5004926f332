use mqtt_toolkit::cli::shell::Shell;
use mqtt_toolkit::cli::spec::CommandSet;
use mqtt_toolkit::commands::connack::connack;
use mqtt_toolkit::commands::connect::connect;
use mqtt_toolkit::commands::publish::{give_up_message, publish, resend_of};
use mqtt_toolkit::commands::run::{plan, Plan};
use mqtt_toolkit::commands::subscribe::subscribe;
use mqtt_toolkit::commands::unsubscribe::unsubscribe;
use mqtt_toolkit::commands::{disconnect::disconnect, exit, help, ping::ping, toggle_debug::toggle_debug, CommandError};
use mqtt_toolkit::mqtt::packet::{Packet, Pid, Protocol, QosPid};

fn shell() -> Shell {
    let mut set = CommandSet::new();
    for c in [
        connect(),
        connack(),
        publish(),
        subscribe(),
        unsubscribe(),
        disconnect(),
        ping(),
        toggle_debug(),
        exit(),
        help(),
    ] {
        set.insert(c.name().to_string(), c);
    }
    Shell::new(set, "MQTT shell.")
}

fn run(line: &str, connected: bool, has_queue: bool) -> Result<Plan, CommandError> {
    let sh = shell();
    let c = sh.parse(line).unwrap().unwrap();
    plan(&c, &sh, connected, has_queue, "localhost", 1883, "mqtt-cli")
}

fn failure(r: Result<Plan, CommandError>) -> String {
    match r {
        Err(CommandError::Failed(m)) => m,
        other => panic!("unexpected {:?}", other),
    }
}

#[test]
fn exit_quits() {
    assert!(matches!(run("exit", false, false), Ok(Plan::Quit)));
}

#[test]
fn connect_refuses_bad_will_level_first() {
    assert_eq!(failure(run("connect -w bye -q 3", true, false)), "Invalid will_qos specified: 3. Expected 0, 1 or 2.");
}

#[test]
fn connect_needs_the_command_queue() {
    assert_eq!(failure(run("connect", false, false)), "command queue tx not found in shell state");
}

#[test]
fn connect_plans_the_connect_packet() {
    match run("connect -k 5 -u me", false, true) {
        Ok(Plan::Connect(o, Packet::Connect(c))) => {
            assert_eq!(o.keep_alive, 5);
            assert_eq!(o.client_id, "me");
            assert_eq!(o.hostname, "localhost");
            assert_eq!(o.port, 1883);
            assert_eq!(c.protocol, Protocol::MQTT311);
            assert_eq!(c.keep_alive, 5);
            assert_eq!(c.client_id, "me");
            assert!(c.clean_session);
            assert_eq!(c.username.as_deref(), Some("me"));
            assert!(c.last_will.is_none());
            assert!(c.password.is_none());
        }
        other => panic!("unexpected {:?}", other),
    }
}

#[test]
fn ping_and_connack_need_a_connection() {
    assert_eq!(failure(run("ping", false, true)), "No tcp connection to send ping.");
    assert_eq!(failure(run("connack", false, true)), "No tcp connection to send ping.");
    assert!(matches!(run("ping", true, true), Ok(Plan::Send(Packet::Pingreq))));
    assert!(matches!(run("connack -s", true, true), Ok(Plan::Send(Packet::Connack(c))) if c.session_present));
}

#[test]
fn disconnect_while_not_connected_only_prints() {
    assert!(matches!(run("disconnect", false, true), Ok(Plan::Print(s)) if s == "Not connected to broker."));
    assert!(matches!(run("disconnect", true, true), Ok(Plan::Disconnect)));
}

#[test]
fn publish_needs_topic_and_message() {
    assert_eq!(failure(run("publish", true, true)), "need to specify topic to publish.");
    assert_eq!(failure(run("publish t", true, true)), "need to specify message to publish");
    match run("publish -q 1 t m", true, true) {
        Ok(Plan::Publish(p)) => {
            assert_eq!(p.qospid, QosPid::AtLeastOnce(Pid::from_u16(1).unwrap()));
            assert!(!p.dup);
            let again = resend_of(&p);
            assert!(again.dup);
            assert_eq!(again.topic_name, "t");
            assert_eq!(again.payload, b"m".to_vec());
            assert_eq!(again.qospid, p.qospid);
        }
        other => panic!("unexpected {:?}", other),
    }
    assert_eq!(give_up_message(), "Timed out waiting for broker response for publish command. Aborting.");
}

#[test]
fn subscribe_plans_its_unsubscribe() {
    assert_eq!(failure(run("subscribe", true, true)), "Must provide at least one topic path to subscribe to.");
    match run("subscribe a b", true, true) {
        Ok(Plan::Subscribe(s, u)) => {
            assert_eq!(u.pid, s.pid);
            assert_eq!(u.topics, vec!["a".to_string(), "b".to_string()]);
        }
        other => panic!("unexpected {:?}", other),
    }
}

#[test]
fn help_and_debug_plans() {
    assert!(matches!(run("help", false, false), Ok(Plan::Print(s)) if s.starts_with("MQTT shell.")));
    assert!(matches!(run("debug", false, false), Ok(Plan::ToggleDebug)));
    assert!(matches!(run("unsubscribe x", true, true), Ok(Plan::Unsubscribe(u)) if u.topics == vec!["x".to_string()]));
}
