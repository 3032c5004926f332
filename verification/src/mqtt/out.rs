//! Writing packets for a connection with the `mqttrs` encoder.
use vstd::prelude::*;

use crate::error::Error;
use crate::mqtt::packet::{
    Connack, Connect, ConnectReturnCode, Packet, Pid, Protocol, Publish, QoS, QosPid, Suback,
    Subscribe, SubscribeReturnCodes, Unsubscribe,
};
use crate::mqtt::{client_buffer_len, client_buffer_spec, encode_buffer_len, encode_buffer_spec, fitting};
use crate::text::push_str;

use mqttrs::ConnectReturnCode as WireCode;
use mqttrs::LastWill as WireLastWill;
use mqttrs::Packet as WirePacket;
use mqttrs::Pid as WirePid;
use mqttrs::Protocol as WireProtocol;
use mqttrs::QoS as WireQoS;
use mqttrs::QosPid as WireQosPid;
use mqttrs::SubscribeReturnCodes as WireReturnCode;
use mqttrs::SubscribeTopic as WireTopic;

verus! {

/// What `mqttrs::encode_slice` writes for the encoder's form of `pkt`:
/// `None` where it refuses the packet whatever the room (a remaining length
/// above 268435455).
pub uninterp spec fn mqtt_encoded(pkt: Packet) -> Option<Seq<u8>>;

/// A packet in the encoder's form, with the library packet it stands for.
/// Only the constructors below make one, each from the library packet it
/// records.
pub struct OutPacket<'a> {
    pkt: WirePacket<'a>,
    model: Ghost<Packet>,
}

impl<'a> OutPacket<'a> {
    /// The library packet that this one stands for.
    pub closed spec fn model(&self) -> Packet {
        self.model@
    }
}

/// The encoder's Connack for `c`.
#[verifier::external_body]
fn out_connack(c: Connack) -> (res: OutPacket<'static>)
    ensures
        res.model() == Packet::Connack(c),
{
    let code = match c.code {
        ConnectReturnCode::Accepted => WireCode::Accepted,
        ConnectReturnCode::RefusedProtocolVersion => WireCode::RefusedProtocolVersion,
        ConnectReturnCode::RefusedIdentifierRejected => WireCode::RefusedIdentifierRejected,
        ConnectReturnCode::ServerUnavailable => WireCode::ServerUnavailable,
        ConnectReturnCode::BadUsernamePassword => WireCode::BadUsernamePassword,
        ConnectReturnCode::NotAuthorized => WireCode::NotAuthorized,
    };
    let pkt = WirePacket::Connack(mqttrs::Connack { session_present: c.session_present, code });
    OutPacket { pkt, model: Ghost(Packet::Connack(c)) }
}

/// The encoder's Connect for `c`, borrowing its text.
#[verifier::external_body]
fn out_connect<'a>(c: &'a Connect) -> (res: OutPacket<'a>)
    ensures
        res.model() == Packet::Connect(*c),
{
    let last_will = c.last_will.as_ref().map(|w| WireLastWill { topic: &w.topic, message: &w.message,
        qos: match w.qos { QoS::AtMostOnce => WireQoS::AtMostOnce, QoS::AtLeastOnce =>
        WireQoS::AtLeastOnce, QoS::ExactlyOnce => WireQoS::ExactlyOnce }, retain: w.retain });
    let protocol = match c.protocol { Protocol::MQTT311 => WireProtocol::MQTT311,
        Protocol::MQIsdp => WireProtocol::MQIsdp };
    let pkt = WirePacket::Connect(mqttrs::Connect { protocol, keep_alive: c.keep_alive,
        client_id: &c.client_id, clean_session: c.clean_session, last_will,
        username: c.username.as_deref(), password: c.password.as_deref() });
    OutPacket { pkt, model: Ghost(Packet::Connect(*c)) }
}

/// The encoder's Publish for `p`, borrowing its topic and payload.
#[verifier::external_body]
fn out_publish<'a>(p: &'a Publish) -> (res: OutPacket<'a>)
    requires
        p.qospid.spec_pid() matches Some(pid) ==> pid@ != 0,
    ensures
        res.model() == Packet::Publish(*p),
{
    let qospid = match p.qospid {
        QosPid::AtMostOnce => WireQosPid::AtMostOnce,
        QosPid::AtLeastOnce(x) => WireQosPid::AtLeastOnce(WirePid::try_from(x.value).unwrap()),
        QosPid::ExactlyOnce(x) => WireQosPid::ExactlyOnce(WirePid::try_from(x.value).unwrap()),
    };
    let pkt = WirePacket::Publish(mqttrs::Publish { dup: p.dup, qospid, retain: p.retain,
        topic_name: &p.topic_name, payload: &p.payload });
    OutPacket { pkt, model: Ghost(Packet::Publish(*p)) }
}

/// The encoder's Puback with identifier `pid`.
#[verifier::external_body]
fn out_puback(pid: Pid) -> (res: OutPacket<'static>)
    requires
        pid@ != 0,
    ensures
        res.model() == Packet::Puback(pid),
{
    OutPacket { pkt: WirePacket::Puback(WirePid::try_from(pid.value).unwrap()), model: Ghost(Packet::Puback(pid)) }
}

/// The encoder's Pubrec with identifier `pid`.
#[verifier::external_body]
fn out_pubrec(pid: Pid) -> (res: OutPacket<'static>)
    requires
        pid@ != 0,
    ensures
        res.model() == Packet::Pubrec(pid),
{
    OutPacket { pkt: WirePacket::Pubrec(WirePid::try_from(pid.value).unwrap()), model: Ghost(Packet::Pubrec(pid)) }
}

/// The encoder's Pubrel with identifier `pid`.
#[verifier::external_body]
fn out_pubrel(pid: Pid) -> (res: OutPacket<'static>)
    requires
        pid@ != 0,
    ensures
        res.model() == Packet::Pubrel(pid),
{
    OutPacket { pkt: WirePacket::Pubrel(WirePid::try_from(pid.value).unwrap()), model: Ghost(Packet::Pubrel(pid)) }
}

/// The encoder's Pubcomp with identifier `pid`.
#[verifier::external_body]
fn out_pubcomp(pid: Pid) -> (res: OutPacket<'static>)
    requires
        pid@ != 0,
    ensures
        res.model() == Packet::Pubcomp(pid),
{
    OutPacket { pkt: WirePacket::Pubcomp(WirePid::try_from(pid.value).unwrap()), model: Ghost(Packet::Pubcomp(pid)) }
}

/// The encoder's Unsuback with identifier `pid`.
#[verifier::external_body]
fn out_unsuback(pid: Pid) -> (res: OutPacket<'static>)
    requires
        pid@ != 0,
    ensures
        res.model() == Packet::Unsuback(pid),
{
    OutPacket { pkt: WirePacket::Unsuback(WirePid::try_from(pid.value).unwrap()), model: Ghost(Packet::Unsuback(pid)) }
}

/// The encoder's Subscribe for `s`.
#[verifier::external_body]
fn out_subscribe(s: &Subscribe) -> (res: OutPacket<'static>)
    requires
        s.pid@ != 0,
    ensures
        res.model() == Packet::Subscribe(*s),
{
    let topics = s.topics.iter().map(|t| WireTopic { topic_path: t.topic_path.clone(), qos: match t.qos {
        QoS::AtMostOnce => WireQoS::AtMostOnce, QoS::AtLeastOnce => WireQoS::AtLeastOnce,
        QoS::ExactlyOnce => WireQoS::ExactlyOnce } }).collect();
    let pkt = WirePacket::Subscribe(mqttrs::Subscribe { pid: WirePid::try_from(s.pid.value).unwrap(), topics });
    OutPacket { pkt, model: Ghost(Packet::Subscribe(*s)) }
}

/// The encoder's Suback for `s`.
#[verifier::external_body]
fn out_suback(s: &Suback) -> (res: OutPacket<'static>)
    requires
        s.pid@ != 0,
    ensures
        res.model() == Packet::Suback(*s),
{
    let return_codes = s.return_codes.iter().map(|c| match c {
        SubscribeReturnCodes::Success(QoS::AtMostOnce) => WireReturnCode::Success(WireQoS::AtMostOnce),
        SubscribeReturnCodes::Success(QoS::AtLeastOnce) => WireReturnCode::Success(WireQoS::AtLeastOnce),
        SubscribeReturnCodes::Success(QoS::ExactlyOnce) => WireReturnCode::Success(WireQoS::ExactlyOnce),
        SubscribeReturnCodes::Failure => WireReturnCode::Failure }).collect();
    let pkt = WirePacket::Suback(mqttrs::Suback { pid: WirePid::try_from(s.pid.value).unwrap(), return_codes });
    OutPacket { pkt, model: Ghost(Packet::Suback(*s)) }
}

/// The encoder's Unsubscribe for `u`.
#[verifier::external_body]
fn out_unsubscribe(u: &Unsubscribe) -> (res: OutPacket<'static>)
    requires
        u.pid@ != 0,
    ensures
        res.model() == Packet::Unsubscribe(*u),
{
    let pkt = WirePacket::Unsubscribe(mqttrs::Unsubscribe { pid: WirePid::try_from(u.pid.value).unwrap(),
        topics: u.topics.clone() });
    OutPacket { pkt, model: Ghost(Packet::Unsubscribe(*u)) }
}

/// The encoder's Pingreq.
#[verifier::external_body]
fn out_pingreq() -> (res: OutPacket<'static>)
    ensures
        res.model() == Packet::Pingreq,
{
    OutPacket { pkt: WirePacket::Pingreq, model: Ghost(Packet::Pingreq) }
}

/// The encoder's Pingresp.
#[verifier::external_body]
fn out_pingresp() -> (res: OutPacket<'static>)
    ensures
        res.model() == Packet::Pingresp,
{
    OutPacket { pkt: WirePacket::Pingresp, model: Ghost(Packet::Pingresp) }
}

/// The encoder's Disconnect.
#[verifier::external_body]
fn out_disconnect() -> (res: OutPacket<'static>)
    ensures
        res.model() == Packet::Disconnect,
{
    OutPacket { pkt: WirePacket::Disconnect, model: Ghost(Packet::Disconnect) }
}

/// Encode a packet into `buf` with `mqttrs::encode_slice`. Claimed, as its
/// source reads: the buffer keeps its length; where the encoding fits in the
/// buffer it is written at the front, its length is returned and the bytes
/// after it are untouched; where it does not fit, or the packet is refused,
/// an error comes back, as its `Debug` text. An MQIsdp Connect is not
/// handed over: the encoder writes two bytes more than it checked room for.
#[verifier::external_body]
fn encode_slice(pkt: &OutPacket<'_>, buf: &mut [u8]) -> (res: Result<usize, String>)
    requires
        !(pkt.model() matches Packet::Connect(c) && c.protocol == Protocol::MQIsdp),
    ensures
        final(buf)@.len() == old(buf)@.len(),
        match mqtt_encoded(pkt.model()) {
            Some(b) => if b.len() <= old(buf)@.len() {
                &&& res matches Ok(n) && n == b.len()
                &&& final(buf)@.subrange(0, b.len() as int) == b
                &&& final(buf)@.subrange(b.len() as int, old(buf)@.len() as int) == old(buf)@.subrange(
                    b.len() as int,
                    old(buf)@.len() as int,
                )
            } else {
                res is Err
            },
            None => res is Err,
        },
{
    mqttrs::encode_slice(&pkt.pkt, buf).map_err(|e| format!("{:?}", e))
}

/// The encoder's form of `pkt` (the library's `Packet::into`), borrowing its
/// text and bytes.
pub fn to_wire<'a>(pkt: &'a Packet) -> (res: OutPacket<'a>)
    ensures
        res.model() == *pkt,
{
    match pkt {
        Packet::Connack(c) => out_connack(*c),
        Packet::Connect(c) => out_connect(c),
        Packet::Publish(p) => {
            proof {
                match p.qospid {
                    QosPid::AtLeastOnce(x) => {
                        use_type_invariant(&x);
                        Pid::lemma_nonzero(x);
                    },
                    QosPid::ExactlyOnce(x) => {
                        use_type_invariant(&x);
                        Pid::lemma_nonzero(x);
                    },
                    QosPid::AtMostOnce => {},
                }
            }
            out_publish(p)
        },
        Packet::Puback(pid) => {
            proof {
                use_type_invariant(pid);
                Pid::lemma_nonzero(*pid);
            }
            out_puback(*pid)
        },
        Packet::Pubrec(pid) => {
            proof {
                use_type_invariant(pid);
                Pid::lemma_nonzero(*pid);
            }
            out_pubrec(*pid)
        },
        Packet::Pubrel(pid) => {
            proof {
                use_type_invariant(pid);
                Pid::lemma_nonzero(*pid);
            }
            out_pubrel(*pid)
        },
        Packet::Pubcomp(pid) => {
            proof {
                use_type_invariant(pid);
                Pid::lemma_nonzero(*pid);
            }
            out_pubcomp(*pid)
        },
        Packet::Unsuback(pid) => {
            proof {
                use_type_invariant(pid);
                Pid::lemma_nonzero(*pid);
            }
            out_unsuback(*pid)
        },
        Packet::Subscribe(s) => {
            proof {
                use_type_invariant(&s.pid);
                Pid::lemma_nonzero(s.pid);
            }
            out_subscribe(s)
        },
        Packet::Suback(s) => {
            proof {
                use_type_invariant(&s.pid);
                Pid::lemma_nonzero(s.pid);
            }
            out_suback(s)
        },
        Packet::Unsubscribe(u) => {
            proof {
                use_type_invariant(&u.pid);
                Pid::lemma_nonzero(u.pid);
            }
            out_unsubscribe(u)
        },
        Packet::Pingreq => out_pingreq(),
        Packet::Pingresp => out_pingresp(),
        Packet::Disconnect => out_disconnect(),
    }
}

/// The text of an encoding error: `Unable to encode packet: ` and the detail.
pub open spec fn encode_error_text(detail: Seq<char>) -> Seq<char> {
    "Unable to encode packet: "@ + detail
}

/// `Unable to encode packet: ` and `detail`.
fn encode_error(detail: &str) -> (res: Error)
    ensures
        res matches Error::EncodeFailed(m) && m@ == encode_error_text(detail@),
{
    let mut chars: Vec<char> = Vec::new();
    push_str(&mut chars, "Unable to encode packet: ");
    push_str(&mut chars, detail);
    Error::EncodeFailed(crate::text::string_from_chars(&chars))
}

/// What encoding `pkt` into a buffer of `len` bytes gives: its encoding
/// where that fits, else an `EncodeFailed` error.
pub open spec fn encoded_within(pkt: Packet, len: int, res: Result<Vec<u8>, Error>) -> bool {
    match mqtt_encoded(pkt) {
        Some(b) => if b.len() <= len {
            res matches Ok(v) && v@ == b
        } else {
            res matches Err(Error::EncodeFailed(_))
        },
        None => res matches Err(Error::EncodeFailed(_)),
    }
}

/// Encode `pkt` into a zeroed buffer of length `len`, cut to the packet.
fn encode_sized(pkt: &Packet, len: usize) -> (res: Result<Vec<u8>, Error>)
    requires
        !(pkt matches Packet::Connect(c) && c.protocol == Protocol::MQIsdp),
    ensures
        encoded_within(*pkt, len as int, res),
{
    let wire = to_wire(pkt);
    let mut buf: Vec<u8> = vec![0u8; len];
    let r = encode_slice(&wire, buf.as_mut_slice());
    match r {
        Ok(n) => {
            buf.truncate(n);
            Ok(buf)
        },
        Err(detail) => Err(encode_error(detail.as_str())),
    }
}

/// Encode a packet the way the broker does: into a zeroed buffer of the
/// length that `encode_buffer_len` gives, cut to the packet's encoded
/// length. Fails when that length does not fit in a `usize`, or the packet's
/// encoding does not fit in the buffer or is refused. An MQIsdp Connect is
/// not encoded: the encoder writes past the room it checked for.
pub fn encode(pkt: &Packet) -> (res: Result<Vec<u8>, Error>)
    requires
        !(pkt matches Packet::Connect(c) && c.protocol == Protocol::MQIsdp),
    ensures
        match fitting(encode_buffer_spec(pkt)) {
            Some(len) => encoded_within(*pkt, len as int, res),
            None => res matches Err(Error::EncodeFailed(_)),
        },
{
    match encode_buffer_len(pkt) {
        Some(len) => encode_sized(pkt, len),
        None => Err(encode_error("buffer too large")),
    }
}

/// Encode a packet the way the command-line client does: into a zeroed
/// buffer of the length that `client_buffer_len` gives, cut to the packet's
/// encoded length, so that only the packet goes on the wire. Fails as
/// `encode` does.
pub fn encode_client(pkt: &Packet) -> (res: Result<Vec<u8>, Error>)
    requires
        !(pkt matches Packet::Connect(c) && c.protocol == Protocol::MQIsdp),
    ensures
        match fitting(client_buffer_spec(pkt)) {
            Some(len) => encoded_within(*pkt, len as int, res),
            None => res matches Err(Error::EncodeFailed(_)),
        },
{
    match client_buffer_len(pkt) {
        Some(len) => encode_sized(pkt, len),
        None => Err(encode_error("buffer too large")),
    }
}

} // verus!
