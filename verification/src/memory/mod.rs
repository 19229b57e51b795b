//! What the agent remembers.

pub mod backend;
pub mod collective;
pub mod collective_conflicts;
pub mod collective_relay;
pub mod contextvm_bridge;
pub mod d_tag;
pub mod doc_index;
pub mod file_indexer;
pub mod fts;
pub mod message_index;
pub mod nomen_policy;
pub mod nomen_socket_adapter;
pub mod nostr;
pub mod nostr_sqlite;
pub mod runtime_context;
pub mod snowclaw_backends;
pub mod snowclaw_ext;
pub mod social;
pub mod traits;
pub mod unified_search;
