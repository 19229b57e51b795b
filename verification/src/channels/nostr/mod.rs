//! The Nostr channel: what is done with each event that a relay delivers.

pub mod actions;
pub mod channel;
pub mod config;
pub mod filters;
pub mod format;
pub mod history;
pub mod laws;
pub mod listen;
pub mod profile;
pub mod publish;
pub mod startup;
