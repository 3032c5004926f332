use vstd::prelude::*;

use crate::error::Error;
use crate::mqtt::packet::Packet;
use crate::mqtt::wire::{decodable, decode, header_scan, header_valid, mqtt_decoded, HeaderScan};

verus! {

/// The length of the first packet that `mqttrs::clone_packet` copies out of
/// `input`: 0 when no whole packet is there yet, `None` when the fixed header
/// is invalid (four continued length bytes, or a header byte of no known
/// kind).
pub open spec fn cloned_frame_len(input: Seq<u8>) -> Option<int> {
    match header_scan(input) {
        HeaderScan::Incomplete => Some(0),
        HeaderScan::Invalid => None,
        HeaderScan::Complete { start, remaining } => if header_valid(input[0]) {
            Some(start + remaining)
        } else {
            None
        },
    }
}

/// Copy the first packet of `input` to the front of `output` with
/// `mqttrs::clone_packet`. Claimed: the outcome is `cloned_frame_len`, at most
/// the input's; the copied bytes are the input's own and the rest of
/// `output` is untouched. The error is handed on as its `Debug` text.
/// `output` must be at least as long as `input`, as the copy does not check.
#[verifier::external_body]
fn clone_packet(input: &[u8], output: &mut [u8]) -> (res: Result<usize, String>)
    requires
        old(output)@.len() >= input@.len(),
    ensures
        final(output)@.len() == old(output)@.len(),
        match res {
            Ok(n) => cloned_frame_len(input@) == Some(n as int) && n <= input@.len() && final(output)@
                == input@.subrange(0, n as int) + old(output)@.subrange(n as int, old(output)@.len() as int),
            Err(_) => cloned_frame_len(input@) is None,
        },
{
    mqttrs::clone_packet(input, output).map_err(|e| format!("{:?}", e))
}

/// What the connection thread hands on of the bytes read from the stream:
/// the bytes themselves, once `mqttrs::clone_packet` accepted their first
/// packet's header; its error otherwise.
pub fn frame_received(received: &Vec<u8>) -> (res: Result<Vec<u8>, String>)
    ensures
        cloned_frame_len(received@) is Some ==> (res matches Ok(v) && v@ == received@),
        cloned_frame_len(received@) is None ==> res is Err,
{
    let mut ret_buf = vstd::slice::slice_to_vec(received.as_slice());
    match clone_packet(received.as_slice(), ret_buf.as_mut_slice()) {
        Ok(_) => {
            assert(ret_buf@ =~= received@);
            Ok(ret_buf)
        },
        Err(e) => Err(e),
    }
}

/// What the TCP thread is asked to do.
#[derive(Debug)]
pub enum PacketTx {
    /// Write an encoded packet to the stream.
    Mqtt(MqttPacketTx),
    /// Close the stream and stop.
    Close,
}

/// An encoded packet to write, and whether writing it restarts the
/// keep-alive wait.
#[derive(Debug)]
pub struct MqttPacketTx {
    pub pkt: Vec<u8>,
    pub keep_alive: bool,
}

/// What the TCP thread hands to the shell.
#[derive(Debug)]
pub enum PacketRx {
    /// Bytes of one packet read from the stream.
    Mqtt(MqttPacketRx),
    /// The broker has closed the connection.
    Disconnected,
}

/// Bytes read from the stream.
#[derive(Debug)]
pub struct MqttPacketRx {
    pub buf: Vec<u8>,
}

/// What reading the stream gave.
#[derive(Debug)]
pub enum ReadOutcome {
    /// Bytes; none means that the stream was closed.
    Data(Vec<u8>),
    /// The read timed out or would block: nothing to read now.
    Idle,
    /// Reading failed.
    Failed,
}

/// What the TCP thread does after a read.
#[derive(Debug)]
pub enum ReadReaction {
    /// Hand the bytes to the shell.
    Forward(PacketRx),
    /// The stream was closed: queue a `disconnect -c` command and stop.
    Closed,
    /// Go on to the writes.
    Continue,
    /// Stop.
    Stop,
}

/// Decide what to do with the result of a read of the stream.
pub fn on_read(outcome: ReadOutcome) -> (res: ReadReaction)
    ensures
        match outcome {
            ReadOutcome::Data(buf) => if buf@.len() == 0 {
                res is Closed
            } else {
                res matches ReadReaction::Forward(PacketRx::Mqtt(p)) && p.buf@ == buf@
            },
            ReadOutcome::Idle => res is Continue,
            ReadOutcome::Failed => res is Stop,
        },
{
    match outcome {
        ReadOutcome::Data(buf) => {
            if buf.len() == 0 {
                ReadReaction::Closed
            } else {
                ReadReaction::Forward(PacketRx::Mqtt(MqttPacketRx { buf }))
            }
        },
        ReadOutcome::Idle => ReadReaction::Continue,
        ReadOutcome::Failed => ReadReaction::Stop,
    }
}

/// What the TCP thread does with a request to write.
#[derive(Debug)]
pub enum WriteReaction {
    /// Write the bytes; then, if asked, restart the keep-alive wait.
    Write(Vec<u8>, bool),
    /// Stop.
    Stop,
}

/// Decide what to do with a request to the TCP thread. The keep-alive wait
/// is restarted only if a keep-alive timer runs.
pub fn on_write_request(msg: PacketTx, keep_alive_running: bool) -> (res: WriteReaction)
    ensures
        match msg {
            PacketTx::Mqtt(m) => res matches WriteReaction::Write(bytes, reset) && bytes@ == m.pkt@
                && reset == (m.keep_alive && keep_alive_running),
            PacketTx::Close => res is Stop,
        },
{
    match msg {
        PacketTx::Mqtt(m) => WriteReaction::Write(m.pkt, m.keep_alive && keep_alive_running),
        PacketTx::Close => WriteReaction::Stop,
    }
}

/// Why the bytes from the connection thread gave no packet.
#[derive(Debug)]
pub enum RxError {
    /// The decoder refused the bytes.
    Decode(Error),
    /// The bytes do not hold a whole packet.
    Incomplete,
    /// The broker has closed the connection.
    Closed,
}

/// The packet in what the connection thread handed over: the decoded
/// packet, `Incomplete` when the bytes hold no whole packet, `Decode` with
/// the decoder's error, `Closed` once the broker has closed the connection.
/// The bytes must be `decodable`.
pub fn decode_tcp_rx(rx: &PacketRx) -> (res: Result<Packet, RxError>)
    requires
        rx matches PacketRx::Mqtt(p) ==> decodable(p.buf@),
    ensures
        rx is Disconnected ==> res matches Err(RxError::Closed),
        rx matches PacketRx::Mqtt(p) ==> (header_scan(p.buf@) is Incomplete ==> (res matches Err(
            RxError::Incomplete,
        ))),
        rx matches PacketRx::Mqtt(p) ==> (header_scan(p.buf@) is Invalid ==> (res matches Err(
            RxError::Decode(Error::InvalidPacket(_)),
        ))),
        rx matches PacketRx::Mqtt(p) ==> ((header_scan(p.buf@) is Complete && !header_valid(
            p.buf@[0],
        )) ==> (res matches Err(RxError::Decode(Error::InvalidPacket(_))))),
        rx matches PacketRx::Mqtt(p) ==> (header_scan(p.buf@) is Complete ==> match mqtt_decoded(p.buf@) {
            Some(q) => res matches Ok(r) && r.same(&q),
            None => res matches Err(RxError::Decode(Error::InvalidPacket(_))),
        }),
{
    match rx {
        PacketRx::Mqtt(p) => match decode(p.buf.as_slice()) {
            Ok(Some(pkt)) => Ok(pkt),
            Ok(None) => Err(RxError::Incomplete),
            Err(e) => Err(RxError::Decode(e)),
        },
        PacketRx::Disconnected => Err(RxError::Closed),
    }
}

} // verus!
