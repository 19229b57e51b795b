//! Snowclaw: the decision core of a Nostr-native agent.

pub mod agent;
pub mod channels;
pub mod config;
pub mod cost;
pub mod ids;
pub mod json;
pub mod keys;
pub mod mcp;
pub mod memory;
pub mod memory_cli;
pub mod nostr_cli;
pub mod order;
pub mod score;
pub mod stats;
pub mod task_cli;
pub mod tasks;
pub mod text;
pub mod text_map;
pub mod time;
pub mod tools;
