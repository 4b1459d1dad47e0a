//! Risk checks and position sizing for trade signals.

pub mod types;
pub mod engine;
