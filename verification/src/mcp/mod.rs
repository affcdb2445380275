//! Tools on servers that speak the model context protocol.

pub mod client_pool;
pub mod config;
pub mod laws;
