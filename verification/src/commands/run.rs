//! What running a parsed command decides, before any packet goes out: the
//! plan that the program then carries out on the connection.
use vstd::prelude::*;

use crate::cli::command::Command as ParsedCommand;
use crate::cli::shell::Shell;
use crate::commands::connack::{connack_of, connack_packet};
use crate::commands::connect::{
    connect_fails, connect_options, connect_packet, connect_result, is_connect_packet, text_given,
    ConnectOptions,
};
use crate::commands::publish::{publish_request, publish_result};
use crate::commands::subscribe::{ends_subscription, subscribe_request, subscribe_result, unsubscribe_for};
use crate::commands::unsubscribe::{unsubscribe_request, unsubscribe_result};
use crate::commands::{help_result, help_text, CommandError};
use crate::mqtt::packet::{Packet, Publish, Subscribe, Unsubscribe};
use crate::text::str_eq;

verus! {

/// What running a command comes to.
#[derive(Debug)]
pub enum Plan {
    /// Stop the shell (`exit`).
    Quit,
    /// Print this text and go on.
    Print(String),
    /// Connect to the broker with these options, sending this Connect first.
    Connect(ConnectOptions, Packet),
    /// Send this packet and go on.
    Send(Packet),
    /// Send a Disconnect and close the connection.
    Disconnect,
    /// Send this Publish and wait as its level asks.
    Publish(Publish),
    /// Send this Subscribe; send this Unsubscribe when the subscription is
    /// cancelled.
    Subscribe(Subscribe, Unsubscribe),
    /// Send this Unsubscribe and wait for the Unsuback.
    Unsubscribe(Unsubscribe),
    /// Turn debug output on or off.
    ToggleDebug,
    /// Nothing to do.
    Nothing,
}

/// The error of sending on a missing connection.
pub open spec fn no_connection_text() -> Seq<char> {
    "No tcp connection to send ping."@
}

/// The error of `connect` when the shell holds no command queue.
pub open spec fn no_queue_text() -> Seq<char> {
    "command queue tx not found in shell state"@
}

/// What running `command` in `shell` decides: `connected` tells whether a
/// connection to the broker is open, `has_queue` whether the shell state
/// holds the command queue; `hostname`, `port` and `client_id` are the
/// current ones.
pub open spec fn planned(
    command: &ParsedCommand,
    shell: &Shell,
    connected: bool,
    has_queue: bool,
    hostname: Seq<char>,
    port: u16,
    client_id: Seq<char>,
    res: Result<Plan, CommandError>,
) -> bool {
    let name = command.spec_spec().spec_name();
    if name == "exit"@ {
        res matches Ok(Plan::Quit)
    } else if name == "help"@ {
        match res {
            Ok(Plan::Print(s)) => help_result(command, shell, Ok(s)),
            Err(e) => help_result(command, shell, Err(e)),
            _ => false,
        }
    } else if name == "connect"@ {
        if connect_fails(command, port) {
            res matches Err(e) && connect_result(command, hostname, port, client_id, Err(e))
        } else if !has_queue {
            res matches Err(CommandError::Failed(m)) && m@ == no_queue_text()
        } else {
            res matches Ok(Plan::Connect(o, p)) && connect_result(
                command,
                hostname,
                port,
                client_id,
                Ok(o),
            ) && is_connect_packet(o, p)
        }
    } else if name == "connack"@ || name == "ping"@ {
        if !connected {
            res matches Err(CommandError::Failed(m)) && m@ == no_connection_text()
        } else if name == "ping"@ {
            res matches Ok(Plan::Send(p)) && p == Packet::Pingreq
        } else {
            res matches Ok(Plan::Send(p)) && p == connack_of(command)
        }
    } else if name == "disconnect"@ {
        if connected {
            res matches Ok(Plan::Disconnect)
        } else {
            res matches Ok(Plan::Print(s)) && s@ == "Not connected to broker."@
        }
    } else if name == "publish"@ {
        match res {
            Ok(Plan::Publish(p)) => publish_result(command, Ok(p)),
            Err(e) => publish_result(command, Err(e)),
            _ => false,
        }
    } else if name == "subscribe"@ {
        match res {
            Ok(Plan::Subscribe(s, u)) => subscribe_result(command, Ok(s)) && ends_subscription(s, u),
            Err(e) => subscribe_result(command, Err(e)),
            _ => false,
        }
    } else if name == "unsubscribe"@ {
        match res {
            Ok(Plan::Unsubscribe(u)) => unsubscribe_result(command, Ok(u)),
            Err(e) => unsubscribe_result(command, Err(e)),
            _ => false,
        }
    } else if name == "debug"@ {
        res matches Ok(Plan::ToggleDebug)
    } else {
        res matches Ok(Plan::Nothing)
    }
}

/// Decide what running `command` in `shell` does (see `planned`).
pub fn plan(
    command: &ParsedCommand,
    shell: &Shell,
    connected: bool,
    has_queue: bool,
    hostname: &str,
    port: u16,
    client_id: &str,
) -> (res: Result<Plan, CommandError>)
    requires
        command.spec_spec().spec_name() == "help"@ ==> {
            &&& shell.wf()
            &&& forall|i: int|
                0 <= i < shell.command_list().len() ==> #[trigger] shell.command_list()[i].help_fits()
            &&& forall|k: Seq<char>| #[trigger]
                shell.spec_commands().contains_key(k) ==> shell.spec_commands()[k].help_fits()
        },
        command.spec_spec().spec_name() == "connect"@ ==> {
            &&& text_given(command, 'k')
            &&& text_given(command, 'h')
            &&& text_given(command, 'p')
            &&& text_given(command, 'q')
            &&& text_given(command, 't')
            &&& text_given(command, 'w')
            &&& text_given(command, 'u')
        },
        command.spec_spec().spec_name() == "publish"@ ==> text_given(command, 'q'),
    ensures
        planned(command, shell, connected, has_queue, hostname@, port, client_id@, res),
{
    let name = command.spec().name();
    if str_eq(name, "exit") {
        Ok(Plan::Quit)
    } else if str_eq(name, "help") {
        match help_text(command, shell) {
            Ok(s) => Ok(Plan::Print(s)),
            Err(e) => Err(e),
        }
    } else if str_eq(name, "connect") {
        match connect_options(command, hostname, port, client_id) {
            Ok(o) => {
                if !has_queue {
                    Err(CommandError::Failed(String::from_str("command queue tx not found in shell state")))
                } else {
                    let p = connect_packet(&o);
                    Ok(Plan::Connect(o, p))
                }
            },
            Err(e) => Err(e),
        }
    } else if str_eq(name, "connack") || str_eq(name, "ping") {
        if !connected {
            Err(CommandError::Failed(String::from_str("No tcp connection to send ping.")))
        } else if str_eq(name, "ping") {
            Ok(Plan::Send(Packet::Pingreq))
        } else {
            Ok(Plan::Send(connack_packet(command)))
        }
    } else if str_eq(name, "disconnect") {
        if connected {
            Ok(Plan::Disconnect)
        } else {
            Ok(Plan::Print(String::from_str("Not connected to broker.")))
        }
    } else if str_eq(name, "publish") {
        match publish_request(command) {
            Ok(p) => Ok(Plan::Publish(p)),
            Err(e) => Err(e),
        }
    } else if str_eq(name, "subscribe") {
        match subscribe_request(command) {
            Ok(s) => {
                let u = unsubscribe_for(&s);
                Ok(Plan::Subscribe(s, u))
            },
            Err(e) => Err(e),
        }
    } else if str_eq(name, "unsubscribe") {
        match unsubscribe_request(command) {
            Ok(u) => Ok(Plan::Unsubscribe(u)),
            Err(e) => Err(e),
        }
    } else if str_eq(name, "debug") {
        Ok(Plan::ToggleDebug)
    } else {
        Ok(Plan::Nothing)
    }
}

} // verus!
