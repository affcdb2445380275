//! What is remembered of novel projects. The project is what counts; a graph
//! of its facts is kept beside it to find things by.

pub mod canon;
pub mod canon_laws;
pub mod consistency;
pub mod laws;
pub mod lifecycle;
pub mod report_laws;
pub mod schema;
pub mod store;
