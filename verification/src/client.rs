use vstd::prelude::*;

pub mod keep_alive;
pub mod tcp;

verus! {

/// A TCP port number.
pub type Port = u16;

/// Address of the broker to connect to.
#[derive(Debug)]
pub struct BrokerAddr {
    pub hostname: String,
    pub port: Port,
}

impl BrokerAddr {
    /// The local broker on the standard MQTT port: `127.0.0.1:1883`.
    pub fn new() -> (res: BrokerAddr)
        ensures
            res.hostname@ == "127.0.0.1"@,
            res.port == 1883,
    {
        BrokerAddr { hostname: String::from_str("127.0.0.1"), port: 1883 }
    }
}

/// How waiting on a channel with a time limit failed.
#[derive(Clone, Copy, Debug, PartialEq, Eq, Structural)]
pub enum RecvTimeoutError {
    /// Nothing arrived in time.
    Timeout,
    /// The sending side is gone.
    Disconnected,
}

} // verus!
