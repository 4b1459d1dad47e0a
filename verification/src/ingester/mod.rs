//! Reading the exchange's trade feed.

pub mod parser;
pub mod ws_client;
