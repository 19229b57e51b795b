//! What the use of models costs.

pub mod pricing;
pub mod types;
