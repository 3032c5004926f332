use vstd::prelude::*;

use crate::cli::command::{entries_fit, Command as ParsedCommand};
use crate::cli::spec;
use crate::cli::spec::command::lemma_fresh_short;
use crate::cli::spec::flag::{FlagView, Query, QueryView};
use crate::client::RecvTimeoutError;
use crate::command::value::{parse_unsigned, FromArg};
use crate::commands::CommandError;
use crate::mqtt::packet::{Connect, LastWill, Packet, Protocol, QoS};
use crate::text::{decimal, push_decimal, push_str, string_from_chars};

verus! {

/// Keep-alive interval when `-k` is not given.
pub const DEFAULT_KEEP_ALIVE: u16 = 0;

/// Seconds to wait for the Connack.
pub const CONNACK_TIMEOUT: u64 = 30;

/// No Connack came in time.
#[derive(Debug)]
pub struct ConnackTimeoutError(pub RecvTimeoutError);

impl ConnackTimeoutError {
    pub fn message(&self) -> (res: &'static str)
        ensures
            res@ == match self.0 {
                RecvTimeoutError::Timeout => "Timeout waiting for CONNACK."@,
                RecvTimeoutError::Disconnected => "Disconnected while waiting for CONNACK."@,
            },
    {
        match self.0 {
            RecvTimeoutError::Timeout => "Timeout waiting for CONNACK.",
            RecvTimeoutError::Disconnected => "Disconnected while waiting for CONNACK.",
        }
    }
}

/// The flags of the `connect` command.
pub open spec fn connect_flags() -> Seq<FlagView> {
    seq![
        (("clean-session"@, 'c'), spec::Arg::NoArg, "Specify to the broker to use a clean session."@),
        (("hostname"@, 'h'), spec::Arg::Required, "Hostname string or ip address of broker with optional port. E.g. -h 127.0.0.1:1883"@),
        (("keep-alive"@, 'k'), spec::Arg::Required, "Specify keep alive interval (max seconds to ping broker if inactive). Default 0."@),
        (("password"@, 's'), spec::Arg::Required, "Password for broker to authenticate. Username required if this flag is set."@),
        (("port"@, 'p'), spec::Arg::Required, "Port num to use. Defaults to 1883 if not passed."@),
        (("qos"@, 'q'), spec::Arg::Required, "Set the QoS level of the Will Message. Will flag must be set if this is set."@),
        (("retain"@, 'r'), spec::Arg::NoArg, "Specify to the broker to retain published messages from this client."@),
        (("topic"@, 't'), spec::Arg::Required, "Specify will topic. Message flag must be set if this is set."@),
        (("username"@, 'u'), spec::Arg::Required, "Enter a username for the broker to authenticate. (Also known as 'client id'.)"@),
        (("will"@, 'w'), spec::Arg::Required, "Specify will message contents. Topic flag must be set if this is set."@),
    ]
}

/// Open an MQTT connection to a broker.
pub fn connect() -> (res: spec::Command)
    ensures
        res.wf(),
        res.spec_name() == "connect"@,
        res.spec_description() == "Open an MQTT connection to a broker"@,
        res.spec_usage() == "{$name} {$flags}"@,
        res.flag_views() == connect_flags(),
{
    let c = spec::Command::build("connect").set_description("Open an MQTT connection to a broker").set_usage(
        "{$name} {$flags}",
    );
    assert(c.flag_views() =~= Seq::empty());
    proof { lemma_fresh_short(&c, "clean-session"@, 'c'); }
    let c = c.add_flag("clean-session", 'c', spec::Arg::NoArg, "Specify to the broker to use a clean session.");
    proof { lemma_fresh_short(&c, "hostname"@, 'h'); }
    let c = c.add_flag(
        "hostname",
        'h',
        spec::Arg::Required,
        "Hostname string or ip address of broker with optional port. E.g. -h 127.0.0.1:1883",
    );
    proof { lemma_fresh_short(&c, "keep-alive"@, 'k'); }
    let c = c.add_flag(
        "keep-alive",
        'k',
        spec::Arg::Required,
        "Specify keep alive interval (max seconds to ping broker if inactive). Default 0.",
    );
    proof { lemma_fresh_short(&c, "password"@, 's'); }
    let c = c.add_flag(
        "password",
        's',
        spec::Arg::Required,
        "Password for broker to authenticate. Username required if this flag is set.",
    );
    proof { lemma_fresh_short(&c, "port"@, 'p'); }
    let c = c.add_flag("port", 'p', spec::Arg::Required, "Port num to use. Defaults to 1883 if not passed.");
    proof { lemma_fresh_short(&c, "qos"@, 'q'); }
    let c = c.add_flag(
        "qos",
        'q',
        spec::Arg::Required,
        "Set the QoS level of the Will Message. Will flag must be set if this is set.",
    );
    proof { lemma_fresh_short(&c, "retain"@, 'r'); }
    let c = c.add_flag(
        "retain",
        'r',
        spec::Arg::NoArg,
        "Specify to the broker to retain published messages from this client.",
    );
    proof { lemma_fresh_short(&c, "topic"@, 't'); }
    let c = c.add_flag(
        "topic",
        't',
        spec::Arg::Required,
        "Specify will topic. Message flag must be set if this is set.",
    );
    proof { lemma_fresh_short(&c, "username"@, 'u'); }
    let c = c.add_flag(
        "username",
        'u',
        spec::Arg::Required,
        "Enter a username for the broker to authenticate. (Also known as 'client id'.)",
    );
    proof { lemma_fresh_short(&c, "will"@, 'w'); }
    let c = c.add_flag(
        "will",
        'w',
        spec::Arg::Required,
        "Specify will message contents. Topic flag must be set if this is set.",
    );
    assert(c.flag_views() =~= connect_flags());
    c
}

/// If the flag with short form `short` is given, it comes with a text.
pub open spec fn text_given(c: &ParsedCommand, short: char) -> bool {
    c.has_flag(QueryView::Short(short)) ==> c.flag_arg(QueryView::Short(short)) is Some
}

/// The text given with the flag with short form `short`.
pub open spec fn text_of(c: &ParsedCommand, short: char) -> Seq<char> {
    c.flag_arg(QueryView::Short(short)).unwrap()
}

/// The value of the flag with short form `short` read as a `T`: `Ok(None)`
/// if the flag is not given.
pub fn flag_value<T: FromArg>(command: &ParsedCommand, short: char) -> (res: Result<
    Option<T>,
    crate::command::value::ParseValueError,
>)
    requires
        text_given(command, short),
    ensures
        !command.has_flag(QueryView::Short(short)) ==> (res matches Ok(None)),
        command.has_flag(QueryView::Short(short)) ==> match res {
            Ok(Some(v)) => T::parses(text_of(command, short)) == Some(v@),
            Ok(None) => false,
            Err(_) => T::parses(text_of(command, short)) is None,
        },
{
    match command.get_flag(Query::Short(short)) {
        Some(f) => f.arg().get_as::<T>(),
        None => Ok(None),
    }
}

/// What the `connect` command reads from its flags.
#[derive(Debug)]
pub struct ConnectOptions {
    /// Keep-alive interval in seconds (`-k`, 0 by default).
    pub keep_alive: u16,
    /// Broker host (`-h`, the current one by default).
    pub hostname: String,
    /// Broker port (`-p`, the current one by default).
    pub port: u16,
    /// Client identifier (`-u`, the current one by default).
    pub client_id: String,
    /// Last will (`-w` message, `-t` topic, `-q` level, `-r` retain), if a
    /// will message is given.
    pub last_will: Option<LastWill>,
}

/// The QoS level that a number names, if any.
pub open spec fn qos_of(n: u8) -> Option<QoS> {
    if n == 0 {
        Some(QoS::AtMostOnce)
    } else if n == 1 {
        Some(QoS::AtLeastOnce)
    } else if n == 2 {
        Some(QoS::ExactlyOnce)
    } else {
        None
    }
}

/// The `-k`, `-p` and `-q` values, if each is absent or reads as a number.
pub open spec fn numbers_read(c: &ParsedCommand, port: u16) -> Option<(u16, u16, u8)> {
    let k = if c.has_flag(QueryView::Short('k')) {
        <u16 as FromArg>::parses(text_of(c, 'k'))
    } else {
        Some(DEFAULT_KEEP_ALIVE)
    };
    let p = if c.has_flag(QueryView::Short('p')) {
        <u16 as FromArg>::parses(text_of(c, 'p'))
    } else {
        Some(port)
    };
    let q = if c.has_flag(QueryView::Short('q')) {
        <u8 as FromArg>::parses(text_of(c, 'q'))
    } else {
        Some(0u8)
    };
    if k is Some && p is Some && q is Some {
        Some((k.unwrap(), p.unwrap(), q.unwrap()))
    } else {
        None
    }
}

/// Whether the `connect` command fails on its flags: `-k`, `-p` or `-q` is
/// not a number, or a will message comes with a level other than 0, 1 or 2.
pub open spec fn connect_fails(command: &ParsedCommand, port: u16) -> bool {
    match numbers_read(command, port) {
        None => true,
        Some((k, p, q)) => command.has_flag(QueryView::Short('w')) && qos_of(q) is None,
    }
}

/// What reading the options of the `connect` command gives, with
/// `hostname`, `port` and `client_id` the current ones.
pub open spec fn connect_result(
    command: &ParsedCommand,
    hostname: Seq<char>,
    port: u16,
    client_id: Seq<char>,
    res: Result<ConnectOptions, CommandError>,
) -> bool {
    match numbers_read(command, port) {
        None => res matches Err(CommandError::InvalidValue(_)),
        Some((k, p, q)) => if command.has_flag(QueryView::Short('w')) && qos_of(q) is None {
            res matches Err(CommandError::Failed(m)) && m@ == "Invalid will_qos specified: "@
                + decimal(q as nat) + ". Expected 0, 1 or 2."@
        } else {
            res matches Ok(o) && {
                &&& o.keep_alive == k
                &&& o.port == p
                &&& o.hostname@ == if command.has_flag(QueryView::Short('h')) {
                    text_of(command, 'h')
                } else {
                    hostname
                }
                &&& o.client_id@ == if command.has_flag(QueryView::Short('u')) {
                    text_of(command, 'u')
                } else {
                    client_id
                }
                &&& if command.has_flag(QueryView::Short('w')) {
                    o.last_will matches Some(lw) && {
                        &&& lw.topic@ == if command.has_flag(QueryView::Short('t')) {
                            text_of(command, 't')
                        } else {
                            Seq::<char>::empty()
                        }
                        &&& lw.message@ == vstd::utf8::encode_utf8(text_of(command, 'w'))
                        &&& Some(lw.qos) == qos_of(q)
                        &&& lw.retain == command.has_flag(QueryView::Short('r'))
                    }
                } else {
                    o.last_will is None
                }
            }
        },
    }
}

/// The will's level follows `-q` in order: with a will message, no `-q` or
/// `-q 0` gives QoS 0, `-q 1` gives QoS 1 and `-q 2` gives QoS 2.
pub proof fn lemma_will_level(
    command: &ParsedCommand,
    hostname: Seq<char>,
    port: u16,
    client_id: Seq<char>,
    res: Result<ConnectOptions, CommandError>,
)
    requires
        connect_result(command, hostname, port, client_id, res),
    ensures
        res matches Ok(o) ==> command.has_flag(QueryView::Short('w')) ==> {
            let given = command.has_flag(QueryView::Short('q'));
            let q = <u8 as FromArg>::parses(text_of(command, 'q'));
            &&& o.last_will is Some
            &&& !given ==> o.last_will.unwrap().qos == QoS::AtMostOnce
            &&& (given && q == Some(0u8)) ==> o.last_will.unwrap().qos == QoS::AtMostOnce
            &&& (given && q == Some(1u8)) ==> o.last_will.unwrap().qos == QoS::AtLeastOnce
            &&& (given && q == Some(2u8)) ==> o.last_will.unwrap().qos == QoS::ExactlyOnce
        },
{
}

/// Without a flag the `connect` command keeps what it has: keep-alive 0,
/// the current host, port and client identifier, and no will; `-r` makes
/// the will retained.
pub proof fn lemma_connect_defaults(
    command: &ParsedCommand,
    hostname: Seq<char>,
    port: u16,
    client_id: Seq<char>,
    res: Result<ConnectOptions, CommandError>,
)
    requires
        connect_result(command, hostname, port, client_id, res),
    ensures
        res matches Ok(o) ==> {
            &&& !command.has_flag(QueryView::Short('k')) ==> o.keep_alive == 0
            &&& !command.has_flag(QueryView::Short('h')) ==> o.hostname@ == hostname
            &&& !command.has_flag(QueryView::Short('p')) ==> o.port == port
            &&& !command.has_flag(QueryView::Short('u')) ==> o.client_id@ == client_id
            &&& !command.has_flag(QueryView::Short('w')) ==> o.last_will is None
            &&& o.last_will matches Some(lw) ==> lw.retain == command.has_flag(QueryView::Short('r'))
                && lw.message@ == vstd::utf8::encode_utf8(text_of(command, 'w'))
        },
{
}

/// The Connect that the `connect` command sends is an MQTT 3.1.1 Connect
/// with a clean session, the client identifier also as user name, no
/// password, and the keep-alive and will of the options.
pub proof fn lemma_connect_packet_fields(options: ConnectOptions, pkt: Packet)
    requires
        is_connect_packet(options, pkt),
    ensures
        pkt matches Packet::Connect(c) && {
            &&& c.protocol == Protocol::MQTT311
            &&& c.clean_session
            &&& c.password is None
            &&& c.keep_alive == options.keep_alive
            &&& c.client_id@ == options.client_id@
            &&& c.username matches Some(u) && u@ == options.client_id@
            &&& (c.last_will is Some <==> options.last_will is Some)
        },
{
}

/// Read the options of the `connect` command; `hostname`, `port` and
/// `client_id` are the current ones. Fails if `-k`, `-p` or `-q` is not a
/// number, or if a will message is given with a level other than 0, 1 or 2.
pub fn connect_options(command: &ParsedCommand, hostname: &str, port: u16, client_id: &str) -> (res: Result<
    ConnectOptions,
    CommandError,
>)
    requires
        text_given(command, 'k'),
        text_given(command, 'h'),
        text_given(command, 'p'),
        text_given(command, 'q'),
        text_given(command, 't'),
        text_given(command, 'w'),
        text_given(command, 'u'),
    ensures
        connect_result(command, hostname@, port, client_id@, res),

{
    let keep_alive = match flag_value::<u16>(command, 'k') {
        Ok(Some(v)) => v,
        Ok(None) => DEFAULT_KEEP_ALIVE,
        Err(e) => {
            return Err(CommandError::InvalidValue(e));
        },
    };
    let host = match flag_value::<String>(command, 'h') {
        Ok(Some(v)) => v,
        _ => hostname.to_owned(),
    };
    let port_v = match flag_value::<u16>(command, 'p') {
        Ok(Some(v)) => v,
        Ok(None) => port,
        Err(e) => {
            return Err(CommandError::InvalidValue(e));
        },
    };
    let will_qos = match flag_value::<u8>(command, 'q') {
        Ok(Some(v)) => v,
        Ok(None) => 0,
        Err(e) => {
            return Err(CommandError::InvalidValue(e));
        },
    };
    let will_retain = command.get_flag(Query::Short('r')).is_some();
    let will_topic = match flag_value::<String>(command, 't') {
        Ok(Some(v)) => v,
        _ => String::new(),
    };
    let will = match flag_value::<String>(command, 'w') {
        Ok(v) => v,
        Err(_) => None,
    };
    let client = match flag_value::<String>(command, 'u') {
        Ok(Some(v)) => v,
        _ => client_id.to_owned(),
    };
    let last_will = match will {
        Some(message) => {
            let qos = if will_qos == 0 {
                QoS::AtMostOnce
            } else if will_qos == 1 {
                QoS::AtLeastOnce
            } else if will_qos == 2 {
                QoS::ExactlyOnce
            } else {
                let mut chars: Vec<char> = Vec::new();
                push_str(&mut chars, "Invalid will_qos specified: ");
                push_decimal(&mut chars, will_qos as usize);
                push_str(&mut chars, ". Expected 0, 1 or 2.");
                return Err(CommandError::Failed(string_from_chars(&chars)));
            };
            let bytes = vstd::slice::slice_to_vec(message.as_str().as_bytes());
            Some(LastWill { topic: will_topic, message: bytes, qos, retain: will_retain })
        },
        None => None,
    };
    Ok(ConnectOptions { keep_alive, hostname: host, port: port_v, client_id: client, last_will })
}

/// Whether `res` is the Connect packet that the `connect` command sends
/// for `options`.
pub open spec fn is_connect_packet(options: ConnectOptions, res: Packet) -> bool {
    res matches Packet::Connect(c) && {
        &&& c.protocol == Protocol::MQTT311
        &&& c.keep_alive == options.keep_alive
        &&& c.client_id@ == options.client_id@
        &&& c.clean_session
        &&& match (c.last_will, options.last_will) {
            (Some(a), Some(b)) => a.same(&b),
            (None, None) => true,
            _ => false,
        }
        &&& c.username matches Some(u) && u@ == options.client_id@
        &&& c.password is None
    }
}

/// The Connect packet that the `connect` command sends: MQTT 3.1.1, a clean
/// session, the client identifier also as user name, no password.
pub fn connect_packet(options: &ConnectOptions) -> (res: Packet)
    ensures
        is_connect_packet(*options, res),

{
    let last_will = match &options.last_will {
        Some(lw) => Some(lw.clone()),
        None => None,
    };
    Packet::Connect(
        Connect {
            protocol: Protocol::MQTT311,
            keep_alive: options.keep_alive,
            client_id: options.client_id.clone(),
            clean_session: true,
            last_will,
            username: Some(options.client_id.clone()),
            password: None,
        },
    )
}

} // verus!
