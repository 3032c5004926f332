//! The MQTT packets of the library, and the lengths of the zeroed buffers
//! that they are encoded into.
use vstd::prelude::*;

use crate::mqtt::packet::{Connect, Packet, SubscribeTopic};
use crate::text::byte_count;

use mqttrs::Packet as WirePacket;
use mqttrs::Connack as WireConnack;
use mqttrs::Connect as WireConnect;
use mqttrs::Publish as WirePublish;
use mqttrs::Pid as WirePid;
use mqttrs::Subscribe as WireSubscribe;
use mqttrs::Suback as WireSuback;
use mqttrs::SubscribeReturnCodes as WireSubscribeReturnCodes;
use mqttrs::Unsubscribe as WireUnsubscribe;

pub mod out;
pub mod packet;
pub mod wire;

pub use out::{encode, encode_client};
pub use wire::{decode, frame_decodable};

verus! {

/// A packet of the `mqttrs` encoder.
#[verifier::external_type_specification]
#[verifier::external_body]
pub struct ExWirePacket<'a>(WirePacket<'a>);

/// Connack data of the `mqttrs` encoder.
#[verifier::external_type_specification]
#[verifier::external_body]
pub struct ExWireConnack(WireConnack);

/// Connect data of the `mqttrs` encoder.
#[verifier::external_type_specification]
#[verifier::external_body]
pub struct ExWireConnect<'a>(WireConnect<'a>);

/// Publish data of the `mqttrs` encoder.
#[verifier::external_type_specification]
#[verifier::external_body]
pub struct ExWirePublish<'a>(WirePublish<'a>);

/// Packet identifier of the `mqttrs` encoder.
#[verifier::external_type_specification]
#[verifier::external_body]
pub struct ExWirePid(WirePid);

/// Subscribe data of the `mqttrs` encoder.
#[verifier::external_type_specification]
#[verifier::external_body]
pub struct ExWireSubscribe(WireSubscribe);

/// Suback data of the `mqttrs` encoder.
#[verifier::external_type_specification]
#[verifier::external_body]
pub struct ExWireSuback(WireSuback);

/// Subscribe return code of the `mqttrs` encoder.
#[verifier::external_type_specification]
#[verifier::external_body]
pub struct ExWireReturnCode(WireSubscribeReturnCodes);

/// Unsubscribe data of the `mqttrs` encoder.
#[verifier::external_type_specification]
#[verifier::external_body]
pub struct ExWireUnsubscribe(WireUnsubscribe);

/// Size in bytes of a value of type `T`.
pub open spec fn size<T>() -> int {
    vstd::layout::size_of::<T>() as int
}

/// Total UTF-8 length of the paths of some topic filters.
pub open spec fn topic_paths_bytes(topics: Seq<SubscribeTopic>) -> int
    decreases topics.len(),
{
    if topics.len() == 0 {
        0
    } else {
        topic_paths_bytes(topics.drop_last()) + byte_count(topics.last().topic_path@)
    }
}

/// Total UTF-8 length of some strings.
pub open spec fn strings_bytes(strings: Seq<String>) -> int
    decreases strings.len(),
{
    if strings.len() == 0 {
        0
    } else {
        strings_bytes(strings.drop_last()) + byte_count(strings.last()@)
    }
}

/// Length of the zeroed buffer that the broker encodes a packet into: the
/// size of an encoder packet, plus the size of the variant's data and the
/// bytes of its payload or topics.
pub open spec fn encode_buffer_spec(pkt: &Packet) -> int {
    size::<WirePacket<'static>>() + match pkt {
        Packet::Connack(_) => size::<WireConnack>(),
        Packet::Connect(_) => size::<Connect>(),
        Packet::Publish(p) => size::<WirePublish<'static>>() + p.payload@.len(),
        Packet::Puback(_) | Packet::Pubrec(_) | Packet::Pubrel(_) | Packet::Pubcomp(_)
        | Packet::Unsuback(_) => size::<WirePid>(),
        Packet::Subscribe(s) => size::<WireSubscribe>() + topic_paths_bytes(s.topics@),
        Packet::Suback(s) => size::<WireSuback>() + size::<WireSubscribeReturnCodes>()
            * s.return_codes@.len(),
        Packet::Unsubscribe(u) => size::<WireUnsubscribe>() + strings_bytes(u.topics@),
        Packet::Pingreq | Packet::Pingresp | Packet::Disconnect => 0,
    }
}

/// Length of the zeroed buffer that the command-line client encodes a packet
/// into, by the packet's kind.
pub open spec fn client_buffer_spec(pkt: &Packet) -> int {
    match pkt {
        Packet::Connect(_) => size::<WireConnect<'static>>(),
        Packet::Connack(_) | Packet::Pingreq => 10,
        Packet::Disconnect => 2,
        Packet::Publish(p) => size::<WirePacket<'static>>() + size::<WirePublish<'static>>()
            + p.payload@.len(),
        Packet::Puback(_) | Packet::Pubrec(_) | Packet::Pubrel(_) => size::<
            WirePacket<'static>,
        >() + size::<WirePid>(),
        Packet::Subscribe(s) => size::<WireSubscribe>() + topic_paths_bytes(s.topics@),
        Packet::Unsubscribe(u) => size::<WireUnsubscribe>() + strings_bytes(u.topics@),
        _ => size::<WirePacket<'static>>(),
    }
}

/// `Some` of `n` where it fits in a `usize`.
pub open spec fn fitting(n: int) -> Option<usize> {
    if 0 <= n <= usize::MAX {
        Some(n as usize)
    } else {
        None
    }
}

/// `a + b`, or `None` past `usize::MAX`.
fn add_len(a: Option<usize>, b: usize) -> (res: Option<usize>)
    ensures
        res == (match a {
            Some(x) => fitting(x + b),
            None => None,
        }),
{
    match a {
        Some(x) => x.checked_add(b),
        None => None,
    }
}

/// Total UTF-8 length of the topic paths, or `None` past `usize::MAX`.
fn topic_paths_len(topics: &Vec<SubscribeTopic>) -> (res: Option<usize>)
    ensures
        res == fitting(topic_paths_bytes(topics@)),
        res is None ==> topic_paths_bytes(topics@) > usize::MAX,
{
    let mut total: usize = 0;
    let mut i: usize = 0;
    while i < topics.len()
        invariant
            i <= topics@.len(),
            total == topic_paths_bytes(topics@.take(i as int)),
        decreases topics@.len() - i,
    {
        assert(topics@.take(i as int) =~= topics@.take(i as int + 1).drop_last());
        let n = topics[i].topic_path.as_str().len();
        match total.checked_add(n) {
            Some(t) => total = t,
            None => {
                proof { lemma_topic_bytes_grow(topics@, i as int + 1) }
                return None;
            },
        }
        i = i + 1;
    }
    assert(topics@.take(i as int) =~= topics@);
    Some(total)
}

/// The byte total of a prefix of topics is at most that of a longer one.
proof fn lemma_topic_bytes_grow(topics: Seq<SubscribeTopic>, k: int)
    requires
        0 <= k <= topics.len(),
    ensures
        topic_paths_bytes(topics.take(k)) <= topic_paths_bytes(topics),
    decreases topics.len() - k,
{
    if k < topics.len() {
        lemma_topic_bytes_grow(topics, k + 1);
        assert(topics.take(k) =~= topics.take(k + 1).drop_last());
    } else {
        assert(topics.take(k) =~= topics);
    }
}

/// Total UTF-8 length of the strings, or `None` past `usize::MAX`.
fn strings_len(strings: &Vec<String>) -> (res: Option<usize>)
    ensures
        res == fitting(strings_bytes(strings@)),
        res is None ==> strings_bytes(strings@) > usize::MAX,
{
    let mut total: usize = 0;
    let mut i: usize = 0;
    while i < strings.len()
        invariant
            i <= strings@.len(),
            total == strings_bytes(strings@.take(i as int)),
        decreases strings@.len() - i,
    {
        assert(strings@.take(i as int) =~= strings@.take(i as int + 1).drop_last());
        let n = strings[i].as_str().len();
        match total.checked_add(n) {
            Some(t) => total = t,
            None => {
                proof { lemma_string_bytes_grow(strings@, i as int + 1) }
                return None;
            },
        }
        i = i + 1;
    }
    assert(strings@.take(i as int) =~= strings@);
    Some(total)
}

/// The byte total of a prefix of strings is at most that of a longer one.
proof fn lemma_string_bytes_grow(strings: Seq<String>, k: int)
    requires
        0 <= k <= strings.len(),
    ensures
        strings_bytes(strings.take(k)) <= strings_bytes(strings),
    decreases strings.len() - k,
{
    if k < strings.len() {
        lemma_string_bytes_grow(strings, k + 1);
        assert(strings.take(k) =~= strings.take(k + 1).drop_last());
    } else {
        assert(strings.take(k) =~= strings);
    }
}

/// Length of the zeroed buffer that the broker encodes `pkt` into, or `None`
/// where that length does not fit in a `usize`.
pub fn encode_buffer_len(pkt: &Packet) -> (res: Option<usize>)
    ensures
        res == fitting(encode_buffer_spec(pkt)),
{
    let base = Some(std::mem::size_of::<WirePacket<'static>>());
    match pkt {
        Packet::Connack(_) => add_len(base, std::mem::size_of::<WireConnack>()),
        Packet::Connect(_) => add_len(base, std::mem::size_of::<Connect>()),
        Packet::Publish(p) => add_len(
            add_len(base, std::mem::size_of::<WirePublish<'static>>()),
            p.payload.len(),
        ),
        Packet::Puback(_) | Packet::Pubrec(_) | Packet::Pubrel(_) | Packet::Pubcomp(_)
        | Packet::Unsuback(_) => add_len(base, std::mem::size_of::<WirePid>()),
        Packet::Subscribe(s) => match topic_paths_len(&s.topics) {
            Some(n) => add_len(add_len(base, std::mem::size_of::<WireSubscribe>()), n),
            None => None,
        },
        Packet::Suback(s) => {
            let code = std::mem::size_of::<WireSubscribeReturnCodes>();
            let count = s.return_codes.len();
            if code != 0 && count > usize::MAX / code {
                proof {
                    assert(code * count > usize::MAX) by (nonlinear_arith)
                        requires
                            code > 0,
                            count > usize::MAX / code,
                    ;
                }
                None
            } else {
                proof {
                    assert(code * count <= usize::MAX) by (nonlinear_arith)
                        requires
                            code == 0 || count <= usize::MAX / code,
                    ;
                }
                add_len(add_len(base, std::mem::size_of::<WireSuback>()), code * count)
            }
        },
        Packet::Unsubscribe(u) => match strings_len(&u.topics) {
            Some(n) => add_len(add_len(base, std::mem::size_of::<WireUnsubscribe>()), n),
            None => None,
        },
        Packet::Pingreq | Packet::Pingresp | Packet::Disconnect => add_len(base, 0),
    }
}

/// Length of the zeroed buffer that the command-line client encodes `pkt`
/// into, or `None` where that length does not fit in a `usize`.
pub fn client_buffer_len(pkt: &Packet) -> (res: Option<usize>)
    ensures
        res == fitting(client_buffer_spec(pkt)),
{
    let base = Some(std::mem::size_of::<WirePacket<'static>>());
    match pkt {
        Packet::Connect(_) => Some(std::mem::size_of::<WireConnect<'static>>()),
        Packet::Connack(_) | Packet::Pingreq => Some(10),
        Packet::Disconnect => Some(2),
        Packet::Publish(p) => add_len(
            add_len(base, std::mem::size_of::<WirePublish<'static>>()),
            p.payload.len(),
        ),
        Packet::Puback(_) | Packet::Pubrec(_) | Packet::Pubrel(_) => add_len(
            base,
            std::mem::size_of::<WirePid>(),
        ),
        Packet::Subscribe(s) => match topic_paths_len(&s.topics) {
            Some(n) => add_len(Some(std::mem::size_of::<WireSubscribe>()), n),
            None => None,
        },
        Packet::Unsubscribe(u) => match strings_len(&u.topics) {
            Some(n) => add_len(Some(std::mem::size_of::<WireUnsubscribe>()), n),
            None => None,
        },
        _ => base,
    }
}

} // verus!
