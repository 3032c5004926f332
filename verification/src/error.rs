use vstd::prelude::*;
use vstd::std_specs::cmp::PartialEqSpecImpl;

verus! {

/// The standard I/O error, carried through unchanged.
#[verifier::external_type_specification]
#[verifier::external_body]
pub struct ExIoError(std::io::Error);

/// Errors of broker events.
#[derive(Debug)]
pub enum Error {
    /// The channels between shared broker state and client handlers failed, in
    /// either direction.
    BrokerMsgSendFailure(String),
    /// A client handler received a packet that does not match its internal
    /// state (for example a Publish while not connected).
    ClientHandlerInvalidState(String),
    /// The broker could not create a new client handler task.
    CreateClientTaskFailed(String),
    /// Encoding a packet failed.
    EncodeFailed(String),
    /// An unknown packet was received from a tcp stream or a broker message
    /// channel.
    InvalidPacket(String),
    /// Setting up logging failed.
    LoggerError(String),
    /// The peer broke the MQTT protocol, usually by sending an illegal packet.
    MQTTProtocolViolation(String),
    /// A packet could not be sent to the client over the tcp connection.
    PacketSendFailed(String),
    /// A packet could not be received from the client over the tcp connection.
    PacketReceiveFailed(String),
    /// An I/O error of the runtime.
    TokioErr(std::io::Error),
}

/// Two errors are equal when they are of the same kind with the same text;
/// any two I/O errors are equal.
impl PartialEq for Error {
    fn eq(&self, other: &Self) -> (res: bool) {
        match (self, other) {
            (Error::BrokerMsgSendFailure(a), Error::BrokerMsgSendFailure(b)) => a.eq(b),
            (Error::ClientHandlerInvalidState(a), Error::ClientHandlerInvalidState(b)) => a.eq(b),
            (Error::CreateClientTaskFailed(a), Error::CreateClientTaskFailed(b)) => a.eq(b),
            (Error::EncodeFailed(a), Error::EncodeFailed(b)) => a.eq(b),
            (Error::InvalidPacket(a), Error::InvalidPacket(b)) => a.eq(b),
            (Error::LoggerError(a), Error::LoggerError(b)) => a.eq(b),
            (Error::MQTTProtocolViolation(a), Error::MQTTProtocolViolation(b)) => a.eq(b),
            (Error::PacketSendFailed(a), Error::PacketSendFailed(b)) => a.eq(b),
            (Error::PacketReceiveFailed(a), Error::PacketReceiveFailed(b)) => a.eq(b),
            (Error::TokioErr(_), Error::TokioErr(_)) => true,
            _ => false,
        }
    }
}

impl Eq for Error {}

impl PartialEqSpecImpl for Error {
    open spec fn obeys_eq_spec() -> bool {
        true
    }

    open spec fn eq_spec(&self, other: &Error) -> bool {
        match (self, other) {
            (Error::BrokerMsgSendFailure(a), Error::BrokerMsgSendFailure(b)) => a@ == b@,
            (Error::ClientHandlerInvalidState(a), Error::ClientHandlerInvalidState(b)) => a@ == b@,
            (Error::CreateClientTaskFailed(a), Error::CreateClientTaskFailed(b)) => a@ == b@,
            (Error::EncodeFailed(a), Error::EncodeFailed(b)) => a@ == b@,
            (Error::InvalidPacket(a), Error::InvalidPacket(b)) => a@ == b@,
            (Error::LoggerError(a), Error::LoggerError(b)) => a@ == b@,
            (Error::MQTTProtocolViolation(a), Error::MQTTProtocolViolation(b)) => a@ == b@,
            (Error::PacketSendFailed(a), Error::PacketSendFailed(b)) => a@ == b@,
            (Error::PacketReceiveFailed(a), Error::PacketReceiveFailed(b)) => a@ == b@,
            (Error::TokioErr(_), Error::TokioErr(_)) => true,
            _ => false,
        }
    }
}

/// Result type of broker operations.
pub type Result<T> = core::result::Result<T, Error>;

} // verus!
