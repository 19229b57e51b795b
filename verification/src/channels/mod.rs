//! Channels: the Nostr channel, its event store and its social memory.

pub mod event;
pub mod nostr;
pub mod nostr_memory;
pub mod recent;
pub mod relay_memory;
pub mod seen_events;
pub mod snowclaw_channels;
