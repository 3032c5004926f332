pub mod arg;
pub mod command;
pub mod flag;

pub use arg::Arg;
pub use command::{Command, CommandSet, ReturnCode};
pub use flag::{Flag, FlagSet};
