use vstd::prelude::*;

verus! {

/// An IP address.
#[derive(Clone, Copy, Debug, PartialEq, Eq, Structural)]
pub enum IpAddress {
    V4(u8, u8, u8, u8),
    V6(u16, u16, u16, u16, u16, u16, u16, u16),
}

/// An IP address with a port.
#[derive(Clone, Copy, Debug, PartialEq, Eq, Structural)]
pub struct SocketAddress {
    pub ip: IpAddress,
    pub port: u16,
}

/// Broker configuration.
#[derive(Clone, Copy, Debug, PartialEq, Eq, Structural)]
pub struct Config {
    /// Address for the broker to listen on.
    pub addr: SocketAddress,
    /// Maximum number of retransmissions; 0 means no limit.
    pub max_retries: u16,
    /// Seconds to wait before re-sending QoS > 0 packets.
    pub retry_interval: u32,
    /// Seconds to wait before taking error handling action (for example a
    /// connection timeout).
    pub timeout_interval: u32,
}

impl Config {
    /// Create a configuration.
    pub fn new(
        ip: IpAddress,
        port: u16,
        max_retries: u16,
        retry_interval: u32,
        timeout_interval: u32,
    ) -> (res: Config)
        ensures
            res.addr == (SocketAddress { ip, port }),
            res.max_retries == max_retries,
            res.retry_interval == retry_interval,
            res.timeout_interval == timeout_interval,
    {
        Config { addr: SocketAddress { ip, port }, max_retries, retry_interval, timeout_interval }
    }
}

} // verus!
