//! Order placement.

pub mod broker;
