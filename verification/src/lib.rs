//! Verified core of a Hyperliquid trade indexer: candle building, swing,
//! sweep and cascade detection, outcome classification, risk sizing and
//! the small decision rules that the service runs around them.

pub mod decimal;

pub mod trading;
pub mod setups;
pub mod signals;
pub mod risk;
pub mod execution;
pub mod alert;
pub mod api;
pub mod detection;
pub mod db;
pub mod backfill;
pub mod chart;
pub mod config;
pub mod ingester;
pub mod hyperliquid;
pub mod text;
