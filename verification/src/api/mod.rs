//! The HTTP API's decisions: request defaults and limits, interval names,
//! feed health, and where chart candles come from.

pub mod routes;
