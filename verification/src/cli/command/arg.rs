pub use crate::command::arg::Arg;
