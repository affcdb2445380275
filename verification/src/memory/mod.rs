//! The memory brain: what it keeps, how it finds it again and how it makes
//! less of it.

pub mod abstract_layer;
pub mod analyzer;
pub mod archive;
pub mod brain_state;
pub mod concentration;
pub mod consolidation;
pub mod conversation_memory;
pub mod entry_laws;
pub mod error;
pub mod eval_requirement;
pub mod event_index;
pub mod evolution;
pub mod experience_pack;
pub mod generic;
pub mod generic_laws;
pub mod guardian;
pub mod ids;
pub mod importance;
pub mod index_layer;
pub mod keeper_laws;
pub mod keywords;
pub mod memory_brain;
pub mod memory_iteration;
pub mod migration;
pub mod novel;
pub mod pending_analysis;
pub mod persona;
pub mod pitfall;
pub mod prompt_laws;
pub mod recall_laws;
pub mod replies;
pub mod reply_laws;
pub mod rows;
pub mod store_laws;
pub mod thought_laws;
pub mod types;
