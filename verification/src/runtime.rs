//! The evaluator: values, what evaluation means, and the interpreter that
//! computes it.

pub mod interp;
pub mod laws;
pub mod render;
pub mod semantics;
pub mod value;

pub use self::interp::{run, Interpreter, Report, RunError};
pub use self::semantics::RuntimeError;
pub use self::value::{Env, Native, RtValue};
