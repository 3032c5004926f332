pub use crate::cli::spec::flag::{error, query};
