//! Tools that the agent calls.

pub mod agent_lesson;
pub mod memory_store;
pub mod nostr_tasks;
pub mod social_search;
pub mod traits;
