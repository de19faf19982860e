//! A Python REPL for recursive language models: the scripts that its rounds run, what becomes of
//! their output, and the answers of the sidecar that serves them.

pub mod models;
pub mod repl;
pub mod rlm;
pub mod text;
