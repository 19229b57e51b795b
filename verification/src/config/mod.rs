//! Configuration types.

pub mod snowclaw_schema;
