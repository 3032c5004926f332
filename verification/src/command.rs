pub mod arg;
pub mod error;
pub mod flag;
pub mod operand;
pub mod value;

pub use arg::Arg;
