//! Recursive language model turns: the system prompt of the root model, and the sidecar through
//! which the code of a round calls models.

pub mod json;
pub mod prompt;
pub mod sidecar;

pub use prompt::rlm_system_prompt;
