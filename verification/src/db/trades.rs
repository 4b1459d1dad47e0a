//! Aggregated trade rows.

use vstd::prelude::*;
use crate::decimal::Dec;

verus! {

/// One OHLCV candle aggregated from stored trades (or fetched from the
/// exchange), ordered by its bucket start.
#[derive(Clone, Copy, Debug)]
pub struct OhlcvRow {
    pub bucket_ms: i64,
    pub open: Dec,
    pub high: Dec,
    pub low: Dec,
    pub close: Dec,
    pub volume: Dec,
}

} // verus!
