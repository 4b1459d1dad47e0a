//! Detection of market events from the live trade stream.

pub mod types;
pub mod candle_builder;
pub mod interval_config;
pub mod swing_detector;
pub mod sweep_detector;
pub mod cascade_detector;
pub mod outcome_tracker;
pub mod pipeline;
pub mod regime_classifier;
pub mod regime_engine;
