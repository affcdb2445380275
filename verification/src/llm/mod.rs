//! The language-model protocol: messages, requests and replies, and how they
//! are written for and read from the services that answer them.

pub mod config;
pub mod echo;
pub mod error;
pub mod gemini;
pub mod http_client;
pub mod gemini_laws;
pub mod laws;
pub mod openai_compat;
pub mod provider;
pub mod retry;
pub mod settings_laws;
pub mod stream;
pub mod stream_laws;
pub mod types;
