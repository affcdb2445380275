//! The main brain: the conversation it keeps, the loop in which the model and
//! the tools take turns, and how its context is kept within bounds.

pub mod brain;
pub mod compact;
pub mod conversation;
pub mod error;
pub mod limits;
pub mod loop_laws;
pub mod prompt_laws;
pub mod prompts;
pub mod talk_laws;
pub mod threshold_compression;
pub mod tool_loop;
