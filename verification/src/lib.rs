//! A multi-brain assistant: its language-model protocol, its conversation
//! loop, its tool routing and its layered memory, as verified functions on
//! plain values.

pub mod brains;
pub mod json;
pub mod keyed;
pub mod llm;
pub mod main_brain;
pub mod master;
pub mod mcp;
pub mod memory;
pub mod order;
pub mod paths;
pub mod replicate;
pub mod seqs;
pub mod shared;
pub mod shelf;
pub mod text;
pub mod text_laws;
pub mod times;
pub mod walk;
pub mod weights;
