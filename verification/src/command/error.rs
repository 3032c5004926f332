pub use crate::cli::spec::command::error::UnknownCommandError;
