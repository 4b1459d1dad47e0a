//! Rows read back from storage that the library computes over.

pub mod trades;
pub mod regime;
pub mod heartbeat;
