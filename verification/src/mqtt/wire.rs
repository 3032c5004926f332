//! Reading packets from the bytes of a connection with the `mqttrs`
//! decoder: which byte strings it reads without running past their end, and
//! the packet it gives, in the library's types.
use vstd::prelude::*;

use crate::error::Error;
use crate::mqtt::packet::{
    Connack, Connect, ConnectReturnCode, LastWill, Packet, Pid, Protocol, Publish, QoS, QosPid,
    Suback, Subscribe, SubscribeReturnCodes, SubscribeTopic, Unsubscribe, same_strings,
};
use crate::text::push_str;

use mqttrs::Packet as WirePacket;

verus! {

/// How far the fixed header of a packet could be read.
pub enum HeaderScan {
    /// The bytes end before the header or the body ends.
    Incomplete,
    /// Four length bytes all continue: no valid header.
    Invalid,
    /// The body starts at `start` and is `remaining` bytes long.
    Complete { start: int, remaining: int },
}

/// `128` to the power `pos`, for `pos` below four.
pub open spec fn weight(pos: int) -> int {
    if pos == 0 {
        1
    } else if pos == 1 {
        128
    } else if pos == 2 {
        16384
    } else {
        2097152
    }
}

/// Scan the remaining-length bytes of the fixed header from position `pos`
/// on, with `acc` read so far.
pub open spec fn header_from(buf: Seq<u8>, pos: int, acc: int) -> HeaderScan
    decreases 4 - pos,
{
    if pos < 0 || pos >= 4 {
        HeaderScan::Invalid
    } else if buf.len() > pos + 1 {
        let b = buf[pos + 1];
        let acc2 = acc + (b % 128) * weight(pos);
        if b < 128 {
            if buf.len() < 2 + pos + acc2 {
                HeaderScan::Incomplete
            } else {
                HeaderScan::Complete { start: pos + 2, remaining: acc2 }
            }
        } else {
            header_from(buf, pos + 1, acc2)
        }
    } else {
        HeaderScan::Incomplete
    }
}

/// The fixed header of the packet at the front of `buf`.
pub open spec fn header_scan(buf: Seq<u8>) -> HeaderScan {
    header_from(buf, 0, 0)
}

/// The remaining length is read little-end first in groups of seven bits,
/// a set top bit meaning that another byte follows: with one length byte
/// the body starts at 2, with two at 3; fewer bytes than the header and body
/// need leave the packet incomplete.
pub proof fn lemma_header_lengths(buf: Seq<u8>)
    ensures
        buf.len() < 2 ==> header_scan(buf) is Incomplete,
        (buf.len() >= 2 && buf[1] < 128) ==> header_scan(buf) == if buf.len() >= 2 + buf[1] {
            HeaderScan::Complete { start: 2, remaining: buf[1] as int }
        } else {
            HeaderScan::Incomplete
        },
        (buf.len() >= 3 && buf[1] >= 128 && buf[2] < 128) ==> ({
            let len = (buf[1] - 128) + 128 * buf[2];
            header_scan(buf) == if buf.len() >= 3 + len {
                HeaderScan::Complete { start: 3, remaining: len }
            } else {
                HeaderScan::Incomplete
            }
        }),
{
    reveal_with_fuel(header_from, 3);
}

/// The end of the two-byte-length-prefixed field at `o`, if it lies within
/// `buf`.
pub open spec fn field_end(buf: Seq<u8>, o: int) -> Option<int> {
    if 0 <= o && o + 2 <= buf.len() && o + 2 + buf[o] * 256 + buf[o + 1] <= buf.len() {
        Some(o + 2 + buf[o] * 256 + buf[o + 1])
    } else {
        None
    }
}

/// The end of the string field at `o`, if it lies within `buf` and is UTF-8.
pub open spec fn str_end(buf: Seq<u8>, o: int) -> Option<int> {
    match field_end(buf, o) {
        Some(e) => if vstd::utf8::valid_utf8(buf.subrange(o + 2, e)) {
            Some(e)
        } else {
            None
        },
        None => None,
    }
}

/// The topic list of a Subscribe from `o` to `end` is read within `buf`:
/// after each topic that reads, its level byte is there; a level above 2
/// ends the reading with an error.
pub open spec fn topics_readable(buf: Seq<u8>, o: int, end: int) -> bool
    decreases buf.len() - o,
{
    if o >= end {
        true
    } else {
        match str_end(buf, o) {
            None => true,
            Some(o1) => o1 < buf.len() && (buf[o1] < 3 ==> topics_readable(buf, o1 + 1, end)),
        }
    }
}

/// Whether header byte `hd` is one the decoder accepts: a known kind with
/// its fixed flags, and a QoS level below three.
pub open spec fn header_valid(hd: u8) -> bool {
    let kind = hd / 16;
    let flags = hd % 16;
    &&& (flags / 2) % 4 != 3
    &&& if kind == 3 {
        true
    } else if kind == 6 || kind == 8 || kind == 10 {
        flags == 2
    } else {
        1 <= kind <= 14 && flags == 0
    }
}

/// The protocol name and level that a Connect may carry: `MQTT` at level 4,
/// `MQIsdp` at level 3.
pub open spec fn known_protocol(name: Seq<u8>, level: u8) -> bool {
    (name == seq![77u8, 81, 84, 84] && level == 4) || (name == seq![77u8, 81, 73, 115, 100, 112]
        && level == 3)
}

/// The body of a packet of kind `kind` (whose QoS bits are `qos`) that starts
/// at `start` and is `remaining` bytes long is read without running past the
/// end of `buf`: a field that does not fit, or a string that is not UTF-8,
/// ends the reading with an error, and the reads that the decoder does not
/// check must fit.
pub open spec fn body_readable(buf: Seq<u8>, kind: int, qos: int, start: int, remaining: int) -> bool {
    if kind == 1 {
        match str_end(buf, start) {
            None => true,
            Some(o1) => o1 < buf.len() && (known_protocol(buf.subrange(start + 2, o1), buf[o1])
                ==> o1 + 4 <= buf.len()),
        }
    } else if kind == 2 {
        start + 2 <= buf.len()
    } else if kind == 3 {
        match str_end(buf, start) {
            None => true,
            Some(o1) => if qos != 0 {
                o1 + 2 <= buf.len() && o1 + 2 <= start + remaining
            } else {
                o1 <= start + remaining
            },
        }
    } else if kind == 4 || kind == 5 || kind == 6 || kind == 7 || kind == 9 || kind == 10 || kind
        == 11 {
        start + 2 <= buf.len()
    } else if kind == 8 {
        start + 2 <= buf.len() && topics_readable(buf, start + 2, start + remaining)
    } else {
        true
    }
}

/// The decoder reads the packet at the front of `buf` without running past
/// its end (or stops before the body, on an incomplete or invalid header).
pub open spec fn decodable(buf: Seq<u8>) -> bool {
    match header_scan(buf) {
        HeaderScan::Complete { start, remaining } => header_valid(buf[0]) ==> body_readable(
            buf,
            (buf[0] / 16) as int,
            ((buf[0] / 2) % 4) as int,
            start,
            remaining,
        ),
        _ => true,
    }
}

/// Whether `bytes` are UTF-8 (`core::str::from_utf8` succeeds).
#[verifier::external_body]
fn is_utf8(bytes: &[u8]) -> (res: bool)
    ensures
        res == vstd::utf8::valid_utf8(bytes@),
{
    core::str::from_utf8(bytes).is_ok()
}

/// What the header scan gives, as plain values: 0 incomplete, 1 invalid, 2
/// complete with the body's start and length.
fn scan_header(buf: &[u8]) -> (res: (u8, usize, usize))
    ensures
        match header_scan(buf@) {
            HeaderScan::Incomplete => res.0 == 0,
            HeaderScan::Invalid => res.0 == 1,
            HeaderScan::Complete { start, remaining } => res.0 == 2 && res.1 == start && res.2
                == remaining,
        },
        res.0 == 2 ==> res.1 + res.2 <= buf@.len() && res.1 <= 5,
{
    let len = buf.len();
    let mut acc: usize = 0;
    let mut pos: usize = 0;
    while pos < 4
        invariant
            pos <= 4,
            len == buf@.len(),
            pos < 4 ==> acc < weight(pos as int),
            header_scan(buf@) == header_from(buf@, pos as int, acc as int),
        decreases 4 - pos,
    {
        if len > pos + 1 {
            let b = buf[pos + 1];
            let w: usize = if pos == 0 {
                1
            } else if pos == 1 {
                128
            } else if pos == 2 {
                16384
            } else {
                2097152
            };
            assert(w == weight(pos as int));
            assert((b % 128) * w < 128 * w) by (nonlinear_arith)
                requires
                    w > 0,
            ;
            let acc2 = acc + (b % 128) as usize * w;
            assert(pos + 1 < 4 ==> weight(pos + 1) == 128 * w);
            if b < 128 {
                if len - 2 - pos < acc2 {
                    return (0, 0, 0);
                } else {
                    return (2, pos + 2, acc2);
                }
            }
            acc = acc2;
        } else {
            return (0, 0, 0);
        }
        pos = pos + 1;
    }
    (1, 0, 0)
}

/// The end of the field at `o`, if it lies within `buf`.
fn field_end_exec(buf: &[u8], o: usize) -> (res: Option<usize>)
    ensures
        match res {
            Some(e) => field_end(buf@, o as int) == Some(e as int) && o + 2 <= e <= buf@.len(),
            None => field_end(buf@, o as int) is None,
        },
{
    let len = buf.len();
    if o > len || len - o < 2 {
        return None;
    }
    let l: usize = buf[o] as usize * 256 + buf[o + 1] as usize;
    if len - o - 2 < l {
        None
    } else {
        Some(o + 2 + l)
    }
}

/// The end of the string field at `o`, if it lies within `buf` and is UTF-8.
fn str_end_exec(buf: &[u8], o: usize) -> (res: Option<usize>)
    ensures
        match res {
            Some(e) => str_end(buf@, o as int) == Some(e as int) && o + 2 <= e <= buf@.len(),
            None => str_end(buf@, o as int) is None,
        },
{
    match field_end_exec(buf, o) {
        Some(e) => {
            let field = vstd::slice::slice_subrange(buf, o + 2, e);
            if is_utf8(field) {
                Some(e)
            } else {
                None
            }
        },
        None => None,
    }
}

/// Whether the topic list of a Subscribe from `from` to `end` is read within
/// `buf`.
fn topics_readable_exec(buf: &[u8], from: usize, end: usize) -> (res: bool)
    requires
        from <= buf@.len(),
    ensures
        res == topics_readable(buf@, from as int, end as int),
{
    let len = buf.len();
    let mut o = from;
    while o < end
        invariant
            len == buf@.len(),
            o <= len,
            topics_readable(buf@, o as int, end as int) == topics_readable(
                buf@,
                from as int,
                end as int,
            ),
        decreases len - o,
    {
        match str_end_exec(buf, o) {
            None => {
                return true;
            },
            Some(o1) => {
                if o1 >= len {
                    return false;
                }
                if buf[o1] >= 3 {
                    return true;
                }
                o = o1 + 1;
            },
        }
    }
    true
}

/// Whether header byte `hd` is one the decoder accepts.
fn header_valid_exec(hd: u8) -> (res: bool)
    ensures
        res == header_valid(hd),
{
    let kind = hd / 16;
    let flags = hd % 16;
    if (flags / 2) % 4 == 3 {
        return false;
    }
    if kind == 3 {
        true
    } else if kind == 6 || kind == 8 || kind == 10 {
        flags == 2
    } else {
        1 <= kind && kind <= 14 && flags == 0
    }
}

/// Whether the bytes from `start` to `end` name a known protocol at `level`.
fn known_protocol_exec(buf: &[u8], start: usize, end: usize, level: u8) -> (res: bool)
    requires
        start <= end <= buf@.len(),
    ensures
        res == known_protocol(buf@.subrange(start as int, end as int), level),
{
    let n = end - start;
    let ghost name = buf@.subrange(start as int, end as int);
    if n == 4 && level == 4 {
        let r = buf[start] == 77 && buf[start + 1] == 81 && buf[start + 2] == 84 && buf[start + 3]
            == 84;
        proof {
            if r {
                assert(name =~= seq![77u8, 81, 84, 84]);
            } else {
                assert(name != seq![77u8, 81, 84, 84] && name.len() != 6) by {
                    if name == seq![77u8, 81, 84, 84] {
                        assert(name[0] == 77 && name[1] == 81 && name[2] == 84 && name[3] == 84);
                    }
                }
            }
        }
        r
    } else if n == 6 && level == 3 {
        let r = buf[start] == 77 && buf[start + 1] == 81 && buf[start + 2] == 73 && buf[start + 3]
            == 115 && buf[start + 4] == 100 && buf[start + 5] == 112;
        proof {
            if r {
                assert(name =~= seq![77u8, 81, 73, 115, 100, 112]);
            } else if name == seq![77u8, 81, 73, 115, 100, 112] {
                assert(name[0] == 77 && name[1] == 81 && name[2] == 73 && name[3] == 115 && name[4]
                    == 100 && name[5] == 112);
            }
        }
        r
    } else {
        proof {
            if name == seq![77u8, 81, 84, 84] {
                assert(name.len() == 4);
            }
            if name == seq![77u8, 81, 73, 115, 100, 112] {
                assert(name.len() == 6);
            }
        }
        false
    }
}

/// Whether the decoder reads the packet at the front of `buf` without
/// running past its end.
pub fn frame_decodable(buf: &[u8]) -> (res: bool)
    ensures
        res == decodable(buf@),
{
    let (kind_scan, start, remaining) = scan_header(buf);
    if kind_scan != 2 {
        return true;
    }
    if !header_valid_exec(buf[0]) {
        return true;
    }
    let len = buf.len();
    let kind = buf[0] / 16;
    let qos = (buf[0] / 2) % 4;
    if kind == 1 {
        match str_end_exec(buf, start) {
            None => true,
            Some(o1) => {
                if o1 >= len {
                    false
                } else if known_protocol_exec(buf, start + 2, o1, buf[o1]) {
                    len - o1 >= 4
                } else {
                    true
                }
            },
        }
    } else if kind == 2 {
        len - start >= 2
    } else if kind == 3 {
        match str_end_exec(buf, start) {
            None => true,
            Some(o1) => if qos != 0 {
                len - o1 >= 2 && o1 - start + 2 <= remaining
            } else {
                o1 - start <= remaining
            },
        }
    } else if kind == 4 || kind == 5 || kind == 6 || kind == 7 || kind == 9 || kind == 10 || kind
        == 11 {
        len - start >= 2
    } else if kind == 8 {
        len - start >= 2 && topics_readable_exec(buf, start + 2, start + remaining)
    } else {
        true
    }
}

/// What `mqttrs::decode_slice` reads from the front of `buf` once the
/// whole packet is there, in the library's types: `None` where it returns
/// an error.
pub uninterp spec fn mqtt_decoded(buf: Seq<u8>) -> Option<Packet>;

/// The position of a packet's kind in the decoder's `PacketType`: Connect 0
/// to Disconnect 13.
pub open spec fn kind_index(p: Packet) -> u8 {
    match p {
        Packet::Connect(_) => 0,
        Packet::Connack(_) => 1,
        Packet::Publish(_) => 2,
        Packet::Puback(_) => 3,
        Packet::Pubrec(_) => 4,
        Packet::Pubrel(_) => 5,
        Packet::Pubcomp(_) => 6,
        Packet::Subscribe(_) => 7,
        Packet::Suback(_) => 8,
        Packet::Unsubscribe(_) => 9,
        Packet::Unsuback(_) => 10,
        Packet::Pingreq => 11,
        Packet::Pingresp => 12,
        Packet::Disconnect => 13,
    }
}

/// The position of a QoS level: 0, 1 or 2.
pub open spec fn qos_index(q: QoS) -> u8 {
    match q {
        QoS::AtMostOnce => 0,
        QoS::AtLeastOnce => 1,
        QoS::ExactlyOnce => 2,
    }
}

/// The position of a connect return code: Accepted 0 to NotAuthorized 5.
pub open spec fn code_index(c: ConnectReturnCode) -> u8 {
    match c {
        ConnectReturnCode::Accepted => 0,
        ConnectReturnCode::RefusedProtocolVersion => 1,
        ConnectReturnCode::RefusedIdentifierRejected => 2,
        ConnectReturnCode::ServerUnavailable => 3,
        ConnectReturnCode::BadUsernamePassword => 4,
        ConnectReturnCode::NotAuthorized => 5,
    }
}

/// A subscribe return code as a byte: the granted level, or 128.
pub open spec fn return_code_byte(c: SubscribeReturnCodes) -> u8 {
    match c {
        SubscribeReturnCodes::Success(q) => qos_index(q),
        SubscribeReturnCodes::Failure => 128,
    }
}

/// The identifier of a Publish, 0 at QoS 0.
pub open spec fn pid_or_zero(q: QosPid) -> u16 {
    match q {
        QosPid::AtMostOnce => 0,
        QosPid::AtLeastOnce(p) => p@,
        QosPid::ExactlyOnce(p) => p@,
    }
}

/// The text of an optional string.
pub open spec fn opt_text(o: Option<String>) -> Option<Seq<char>> {
    match o {
        Some(s) => Some(s@),
        None => None,
    }
}

/// The bytes of an optional byte vector.
pub open spec fn opt_bytes(o: Option<Vec<u8>>) -> Option<Seq<u8>> {
    match o {
        Some(v) => Some(v@),
        None => None,
    }
}

/// A packet read by the decoder, with the library packet it stands for.
/// Only `decode_slice` makes one.
struct Decoded<'a> {
    pkt: WirePacket<'a>,
    model: Ghost<Packet>,
}

impl<'a> Decoded<'a> {
    /// The library packet that this one stands for.
    closed spec fn model(&self) -> Packet {
        self.model@
    }
}

/// Decode the packet at the front of `buf` with `mqttrs::decode_slice`.
/// Claimed, as its source reads: no packet while the header or the body is
/// incomplete, an error for an invalid header; once the whole packet is
/// there, the packet that `mqtt_decoded` names, or an error where it names
/// none (always for a header byte of no known kind). The error is handed on
/// as its `Debug` text.
#[verifier::external_body]
fn decode_slice(buf: &[u8]) -> (res: Result<Option<Decoded<'_>>, String>)
    requires
        decodable(buf@),
    ensures
        header_scan(buf@) is Incomplete ==> res matches Ok(None),
        header_scan(buf@) is Invalid ==> res is Err,
        header_scan(buf@) is Complete ==> match mqtt_decoded(buf@) {
            Some(q) => res matches Ok(Some(d)) && d.model() == q,
            None => res is Err,
        },
        (header_scan(buf@) is Complete && !header_valid(buf@[0])) ==> res is Err,
{
    match mqttrs::decode_slice(buf) {
        Ok(Some(pkt)) => Ok(Some(Decoded { pkt, model: Ghost(mqtt_decoded(buf@).unwrap()) })),
        Ok(None) => Ok(None),
        Err(e) => Err(format!("{:?}", e)),
    }
}

/// The kind of a decoded packet (`Packet::get_type`), as the position of the
/// `PacketType` variant.
#[verifier::external_body]
fn wire_kind(d: &Decoded<'_>) -> (res: u8)
    ensures
        res == kind_index(d.model()),
{
    d.pkt.get_type() as u8
}

/// The identifier of a Puback, Pubrec, Pubrel, Pubcomp or Unsuback; never 0.
#[verifier::external_body]
fn wire_pid(d: &Decoded<'_>) -> (res: Option<u16>)
    ensures
        res matches Some(v) ==> v != 0,
        match d.model() {
            Packet::Puback(x) => res == Some(x@),
            Packet::Pubrec(x) => res == Some(x@),
            Packet::Pubrel(x) => res == Some(x@),
            Packet::Pubcomp(x) => res == Some(x@),
            Packet::Unsuback(x) => res == Some(x@),
            _ => res is None,
        },
{
    match &d.pkt {
        WirePacket::Puback(x) | WirePacket::Pubrec(x) | WirePacket::Pubrel(x)
        | WirePacket::Pubcomp(x) | WirePacket::Unsuback(x) => Some(x.get()),
        _ => None,
    }
}

/// The fields of a Connack: session present, and the return code's position.
#[verifier::external_body]
fn wire_connack(d: &Decoded<'_>) -> (res: Option<(bool, u8)>)
    ensures
        match d.model() {
            Packet::Connack(c) => res == Some((c.session_present, code_index(c.code))),
            _ => res is None,
        },
{
    match &d.pkt {
        WirePacket::Connack(c) => Some((c.session_present, c.code as u8)),
        _ => None,
    }
}

/// The fields of a Connect but its will: protocol position (MQTT 3.1.1 0,
/// MQIsdp 1), keep-alive, client id, clean session, user name, password.
#[verifier::external_body]
fn wire_connect(d: &Decoded<'_>) -> (res: Option<(u8, u16, String, bool, Option<String>, Option<Vec<u8>>)>)
    ensures
        match d.model() {
            Packet::Connect(c) => res matches Some(t) && {
                &&& t.0 == (if c.protocol == Protocol::MQTT311 { 0u8 } else { 1u8 })
                &&& t.1 == c.keep_alive
                &&& t.2@ == c.client_id@
                &&& t.3 == c.clean_session
                &&& opt_text(t.4) == opt_text(c.username)
                &&& opt_bytes(t.5) == opt_bytes(c.password)
            },
            _ => res is None,
        },
{
    match &d.pkt {
        WirePacket::Connect(c) => Some((c.protocol as u8, c.keep_alive, c.client_id.to_string(),
            c.clean_session, c.username.map(|u| u.to_string()), c.password.map(|w| w.to_vec()))),
        _ => None,
    }
}

/// The will of a Connect, if it has one: topic, message, QoS position,
/// retain.
#[verifier::external_body]
fn wire_last_will(d: &Decoded<'_>) -> (res: Option<(String, Vec<u8>, u8, bool)>)
    ensures
        match d.model() {
            Packet::Connect(c) => match c.last_will {
                Some(w) => res matches Some(t) && t.0@ == w.topic@ && t.1@ == w.message@ && t.2
                    == qos_index(w.qos) && t.3 == w.retain,
                None => res is None,
            },
            _ => res is None,
        },
{
    match &d.pkt {
        WirePacket::Connect(c) => c.last_will.as_ref().map(|w| (w.topic.to_string(),
            w.message.to_vec(), w.qos as u8, w.retain)),
        _ => None,
    }
}

/// The fields of a Publish: dup, QoS position, identifier (0 at QoS 0, never
/// 0 above), retain, topic, payload.
#[verifier::external_body]
fn wire_publish(d: &Decoded<'_>) -> (res: Option<(bool, u8, u16, bool, String, Vec<u8>)>)
    ensures
        res matches Some(t) ==> (t.1 == 0 <==> t.2 == 0),
        match d.model() {
            Packet::Publish(b) => res matches Some(t) && {
                &&& t.0 == b.dup
                &&& t.1 == qos_index(b.qospid.spec_qos())
                &&& t.2 == pid_or_zero(b.qospid)
                &&& t.3 == b.retain
                &&& t.4@ == b.topic_name@
                &&& t.5@ == b.payload@
            },
            _ => res is None,
        },
{
    match &d.pkt {
        WirePacket::Publish(b) => Some((b.dup, b.qospid.qos() as u8, b.qospid.pid().map_or(0,
            |x| x.get()), b.retain, b.topic_name.to_string(), b.payload.to_vec())),
        _ => None,
    }
}

/// The fields of a Subscribe: identifier (never 0) and each topic with its
/// QoS position.
#[verifier::external_body]
fn wire_subscribe(d: &Decoded<'_>) -> (res: Option<(u16, Vec<(String, u8)>)>)
    ensures
        res matches Some(t) ==> t.0 != 0,
        match d.model() {
            Packet::Subscribe(s) => res matches Some(t) && {
                &&& t.0 == s.pid@
                &&& t.1@.len() == s.topics@.len()
                &&& forall|i: int| 0 <= i < t.1@.len() ==> (#[trigger] t.1@[i]).0@ == s.topics@[i].topic_path@
                    && t.1@[i].1 == qos_index(s.topics@[i].qos)
            },
            _ => res is None,
        },
{
    match &d.pkt {
        WirePacket::Subscribe(s) => Some((s.pid.get(),
            s.topics.iter().map(|t| (t.topic_path.clone(), t.qos as u8)).collect())),
        _ => None,
    }
}

/// The fields of a Suback: identifier (never 0) and each return code as the
/// granted QoS position, or 128 for a failure.
#[verifier::external_body]
fn wire_suback(d: &Decoded<'_>) -> (res: Option<(u16, Vec<u8>)>)
    ensures
        res matches Some(t) ==> t.0 != 0,
        match d.model() {
            Packet::Suback(s) => res matches Some(t) && {
                &&& t.0 == s.pid@
                &&& t.1@.len() == s.return_codes@.len()
                &&& forall|i: int| 0 <= i < t.1@.len() ==> #[trigger] t.1@[i] == return_code_byte(s.return_codes@[i])
            },
            _ => res is None,
        },
{
    match &d.pkt {
        WirePacket::Suback(s) => Some((s.pid.get(), s.return_codes.iter().map(|c| match c {
            mqttrs::SubscribeReturnCodes::Success(q) => *q as u8,
            mqttrs::SubscribeReturnCodes::Failure => 128,
        }).collect())),
        _ => None,
    }
}

/// The fields of an Unsubscribe: identifier (never 0) and topics.
#[verifier::external_body]
fn wire_unsubscribe(d: &Decoded<'_>) -> (res: Option<(u16, Vec<String>)>)
    ensures
        res matches Some(t) ==> t.0 != 0,
        match d.model() {
            Packet::Unsubscribe(u) => res matches Some(t) && t.0 == u.pid@ && same_strings(t.1@, u.topics@),
            _ => res is None,
        },
{
    match &d.pkt {
        WirePacket::Unsubscribe(s) => Some((s.pid.get(), s.topics.clone())),
        _ => None,
    }
}

/// The QoS level at position `n`.
fn qos_at(n: u8) -> (res: QoS)
    requires
        n < 3,
    ensures
        res == (if n == 0 {
            QoS::AtMostOnce
        } else if n == 1 {
            QoS::AtLeastOnce
        } else {
            QoS::ExactlyOnce
        }),
{
    if n == 0 {
        QoS::AtMostOnce
    } else if n == 1 {
        QoS::AtLeastOnce
    } else {
        QoS::ExactlyOnce
    }
}

/// The connect return code at position `n`.
fn code_at(n: u8) -> (res: ConnectReturnCode)
    requires
        n < 6,
    ensures
        res == (if n == 0 {
            ConnectReturnCode::Accepted
        } else if n == 1 {
            ConnectReturnCode::RefusedProtocolVersion
        } else if n == 2 {
            ConnectReturnCode::RefusedIdentifierRejected
        } else if n == 3 {
            ConnectReturnCode::ServerUnavailable
        } else if n == 4 {
            ConnectReturnCode::BadUsernamePassword
        } else {
            ConnectReturnCode::NotAuthorized
        }),
{
    if n == 0 {
        ConnectReturnCode::Accepted
    } else if n == 1 {
        ConnectReturnCode::RefusedProtocolVersion
    } else if n == 2 {
        ConnectReturnCode::RefusedIdentifierRejected
    } else if n == 3 {
        ConnectReturnCode::ServerUnavailable
    } else if n == 4 {
        ConnectReturnCode::BadUsernamePassword
    } else {
        ConnectReturnCode::NotAuthorized
    }
}

/// The packet identifier `v` (not 0).
fn pid_of(v: u16) -> (res: Pid)
    requires
        v != 0,
    ensures
        res@ == v,
{
    match Pid::from_u16(v) {
        Some(p) => p,
        None => Pid::new(),
    }
}

/// The library's packet for a decoded one: the same as the packet it stands
/// for.
fn from_wire(d: &Decoded<'_>) -> (res: Option<Packet>)
    ensures
        res matches Some(p) && p.same(&d.model()),
{
    let kind = wire_kind(d);
    if kind == 0 {
        match wire_connect(d) {
            Some((protocol, keep_alive, client_id, clean_session, username, password)) => {
                let last_will = match wire_last_will(d) {
                    Some((topic, message, q, retain)) => Some(
                        LastWill { topic, message, qos: qos_at(q), retain },
                    ),
                    None => None,
                };
                let protocol = if protocol == 0 {
                    Protocol::MQTT311
                } else {
                    Protocol::MQIsdp
                };
                let c = Connect {
                    protocol,
                    keep_alive,
                    client_id,
                    clean_session,
                    last_will,
                    username,
                    password,
                };
                proof {
                    let m = d.model()->Connect_0;
                    assert(c.same(&m));
                }
                Some(Packet::Connect(c))
            },
            None => None,
        }
    } else if kind == 1 {
        match wire_connack(d) {
            Some((session_present, code)) => Some(
                Packet::Connack(Connack { session_present, code: code_at(code) }),
            ),
            None => None,
        }
    } else if kind == 2 {
        match wire_publish(d) {
            Some((dup, q, pid, retain, topic_name, payload)) => {
                let ghost m = d.model()->Publish_0;
                let qospid = if q == 0 {
                    QosPid::AtMostOnce
                } else if q == 1 {
                    let x = pid_of(pid);
                    proof {
                        Pid::lemma_view_eq(x, m.qospid->AtLeastOnce_0);
                    }
                    QosPid::AtLeastOnce(x)
                } else {
                    let x = pid_of(pid);
                    proof {
                        Pid::lemma_view_eq(x, m.qospid->ExactlyOnce_0);
                    }
                    QosPid::ExactlyOnce(x)
                };
                Some(Packet::Publish(Publish { dup, qospid, retain, topic_name, payload }))
            },
            None => None,
        }
    } else if kind == 7 {
        match wire_subscribe(d) {
            Some((pid, pairs)) => {
                let ghost m = d.model()->Subscribe_0;
                let mut topics: Vec<SubscribeTopic> = Vec::new();
                let mut i: usize = 0;
                let n = pairs.len();
                while i < n
                    invariant
                        n == pairs@.len(),
                        i <= n,
                        n == m.topics@.len(),
                        topics@.len() == i,
                        forall|k: int| 0 <= k < n ==> (#[trigger] pairs@[k]).0@ == m.topics@[k].topic_path@
                            && pairs@[k].1 == qos_index(m.topics@[k].qos),
                        forall|k: int| 0 <= k < i ==> (#[trigger] topics@[k]).same(&m.topics@[k]),
                    decreases n - i,
                {
                    let q = pairs[i].1;
                    let path = pairs[i].0.clone();
                    topics.push(SubscribeTopic { topic_path: path, qos: qos_at(q) });
                    i = i + 1;
                }
                let x = pid_of(pid);
                proof {
                    Pid::lemma_view_eq(x, m.pid);
                }
                Some(Packet::Subscribe(Subscribe { pid: x, topics }))
            },
            None => None,
        }
    } else if kind == 8 {
        match wire_suback(d) {
            Some((pid, codes)) => {
                let ghost m = d.model()->Suback_0;
                let mut return_codes: Vec<SubscribeReturnCodes> = Vec::new();
                let mut i: usize = 0;
                while i < codes.len()
                    invariant
                        i <= codes@.len(),
                        codes@.len() == m.return_codes@.len(),
                        forall|k: int| 0 <= k < codes@.len() ==> #[trigger] codes@[k] == return_code_byte(m.return_codes@[k]),
                        return_codes@ == m.return_codes@.take(i as int),
                    decreases codes@.len() - i,
                {
                    let c = codes[i];
                    if c == 128 {
                        return_codes.push(SubscribeReturnCodes::Failure);
                    } else {
                        return_codes.push(SubscribeReturnCodes::Success(qos_at(c)));
                    }
                    i = i + 1;
                    assert(return_codes@ =~= m.return_codes@.take(i as int));
                }
                assert(return_codes@ =~= m.return_codes@);
                let x = pid_of(pid);
                proof {
                    Pid::lemma_view_eq(x, m.pid);
                }
                Some(Packet::Suback(Suback { pid: x, return_codes }))
            },
            None => None,
        }
    } else if kind == 9 {
        match wire_unsubscribe(d) {
            Some((pid, topics)) => {
                let x = pid_of(pid);
                proof {
                    Pid::lemma_view_eq(x, d.model()->Unsubscribe_0.pid);
                }
                Some(Packet::Unsubscribe(Unsubscribe { pid: x, topics }))
            },
            None => None,
        }
    } else if kind == 11 {
        Some(Packet::Pingreq)
    } else if kind == 12 {
        Some(Packet::Pingresp)
    } else if kind == 13 {
        Some(Packet::Disconnect)
    } else {
        match wire_pid(d) {
            Some(v) => {
                let pid = pid_of(v);
                if kind == 3 {
                    proof {
                        Pid::lemma_view_eq(pid, d.model()->Puback_0);
                    }
                    Some(Packet::Puback(pid))
                } else if kind == 4 {
                    proof {
                        Pid::lemma_view_eq(pid, d.model()->Pubrec_0);
                    }
                    Some(Packet::Pubrec(pid))
                } else if kind == 5 {
                    proof {
                        Pid::lemma_view_eq(pid, d.model()->Pubrel_0);
                    }
                    Some(Packet::Pubrel(pid))
                } else if kind == 6 {
                    proof {
                        Pid::lemma_view_eq(pid, d.model()->Pubcomp_0);
                    }
                    Some(Packet::Pubcomp(pid))
                } else {
                    proof {
                        Pid::lemma_view_eq(pid, d.model()->Unsuback_0);
                    }
                    Some(Packet::Unsuback(pid))
                }
            },
            None => None,
        }
    }
}

/// The text of a decoding error: `Unable to decode packet: ` and the detail.
pub open spec fn decode_error_text(detail: Seq<char>) -> Seq<char> {
    "Unable to decode packet: "@ + detail
}

/// `Unable to decode packet: ` and `detail`.
fn decode_error(detail: &str) -> (res: Error)
    ensures
        res matches Error::InvalidPacket(m) && m@ == decode_error_text(detail@),
{
    let mut chars: Vec<char> = Vec::new();
    push_str(&mut chars, "Unable to decode packet: ");
    push_str(&mut chars, detail);
    Error::InvalidPacket(crate::text::string_from_chars(&chars))
}

/// Decode at most one packet from the bytes of a connection: none while the
/// packet is incomplete, an `InvalidPacket` error for an invalid header, and
/// once the whole packet is there the packet that the decoder reads
/// (`mqtt_decoded`), or an `InvalidPacket` error where it reads none. The
/// bytes must be `decodable`: the decoder indexes past the end of some
/// truncated bodies.
pub fn decode(buf: &[u8]) -> (res: Result<Option<Packet>, Error>)
    requires
        decodable(buf@),
    ensures
        header_scan(buf@) is Incomplete ==> res matches Ok(None),
        header_scan(buf@) is Invalid ==> res matches Err(Error::InvalidPacket(_)),
        header_scan(buf@) is Complete ==> match mqtt_decoded(buf@) {
            Some(q) => res matches Ok(Some(p)) && p.same(&q),
            None => res matches Err(Error::InvalidPacket(_)),
        },
        (header_scan(buf@) is Complete && !header_valid(buf@[0])) ==> res matches Err(
            Error::InvalidPacket(_),
        ),
        res matches Err(e) ==> e matches Error::InvalidPacket(m) && m@.len() >= 25
            && m@.subrange(0, 25) == "Unable to decode packet: "@,
{
    proof {
        reveal_strlit("Unable to decode packet: ");
    }
    match decode_slice(buf) {
        Ok(Some(p)) => match from_wire(&p) {
            Some(pkt) => Ok(Some(pkt)),
            None => Ok(None),
        },
        Ok(None) => Ok(None),
        Err(detail) => {
            let e = decode_error(detail.as_str());
            Err(e)
        },
    }
}

} // verus!
