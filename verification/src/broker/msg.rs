use vstd::prelude::*;

use crate::error::Error;
use crate::mqtt::packet::{Packet, Pid, QosPid};

verus! {

/// Messages between the shared broker state and the client handlers, in
/// both directions. `Tx` is the channel over which the broker reaches a
/// client handler.
#[derive(Debug)]
pub enum BrokerMsg<Tx> {
    /// A client completed the connection handshake.
    ClientConnected {
        /// client identifier
        client: String,
        /// channel to this client handler
        client_tx: Tx,
    },
    /// A client opened a connection but sent no Connect packet in time.
    ClientConnectionTimeout,
    /// A client or the broker disconnected, on purpose or after a protocol
    /// violation.
    ClientDisconnected {
        /// client identifier
        client: String,
    },
    /// A client publishes a message; also what the broker forwards to
    /// subscribers.
    Publish {
        /// client identifier of the publisher
        client: String,
        /// set on a resend
        dup: bool,
        /// QoS level, with a packet identifier when above 0
        qospid: QosPid,
        /// the broker retains the message if set
        retain: bool,
        /// topic to publish to
        topic_name: String,
        /// message bytes
        payload: Vec<u8>,
    },
    /// A client subscribes to topics.
    Subscribe {
        /// client identifier
        client: String,
        /// packet identifier of the exchange
        pid: Pid,
        /// topic paths
        topics: Vec<String>,
    },
    /// A client unsubscribes from topics.
    Unsubscribe {
        /// client identifier
        client: String,
        /// packet identifier of the exchange
        pid: Pid,
        /// topic paths
        topics: Vec<String>,
    },
    /// A QoS exchange timed out and a packet must be sent again.
    QoSRetry {
        /// client identifier
        client: String,
        /// packet to send again
        packet: Packet,
    },
    /// A client handler failed and the connection must close.
    Error {
        /// client identifier
        client: String,
        /// the failure
        error: Error,
    },
}

} // verus!
