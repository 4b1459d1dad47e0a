//! Per-coin heartbeats of the trade feed.

use vstd::prelude::*;

verus! {

/// The time of the last trade seen for a coin.
#[derive(Clone, Debug)]
pub struct HeartbeatRow {
    pub coin: String,
    pub last_trade_ts_ms: i64,
}

} // verus!
