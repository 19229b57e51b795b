//! The setting of tier-aware recall.

pub use super::traits::RecallContext;
