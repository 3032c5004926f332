//! MQTT tooling: a command-line client shell and a broker core.
//!
//! The client side parses shell input into commands with flags and
//! operands; the broker side keeps the shared subscription state, the
//! per-client protocol state machine and the QoS transaction trackers.
pub mod broker;
pub mod cli;
pub mod client;
pub mod collections;
pub mod command;
pub mod commands;
pub mod error;
pub mod mqtt;
pub mod ports;
pub mod spec;
pub mod text;
