pub mod command;
pub mod flag;
