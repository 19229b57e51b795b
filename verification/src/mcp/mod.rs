//! Tools of MCP (Model Context Protocol) servers, local or reached over Nostr relays.

pub mod contextvm;
pub mod local;
pub mod pending;
pub mod types;
