pub mod command;
pub mod error;
pub mod shell;
pub mod spec;
