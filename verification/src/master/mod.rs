//! The brain that judges what the others say and dispatches them.

pub mod error;
pub mod laws;
pub mod master;
pub mod weight_engine;
