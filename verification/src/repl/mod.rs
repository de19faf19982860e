//! The rounds of the Python REPL.

pub mod environment;
pub mod output;
pub mod runtime;
pub mod script;

pub use runtime::{PythonRuntime, ReplRound};
