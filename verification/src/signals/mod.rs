//! Trade signals: concrete entry, stop and targets drawn from a setup.

pub mod types;
pub mod engine;
