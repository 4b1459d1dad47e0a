//! The exchange's public information endpoint.

pub mod info_client;
