pub mod error;

pub use crate::command::operand::{Operand, OperandList};
