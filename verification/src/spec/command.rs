pub use crate::cli::spec::command::error;
pub use crate::cli::spec::command::ReturnCode;
