//! What the agent is built from.

pub mod snowclaw_agent;
