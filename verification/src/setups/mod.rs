//! Trade setups derived from detected market events.

pub mod types;
pub mod engine;
