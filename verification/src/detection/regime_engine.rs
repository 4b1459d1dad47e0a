//! The periodic regime refresh: which timeframes are classified, which
//! candles are fetched for them, and how often.

use vstd::prelude::*;
use crate::db::trades::OhlcvRow;

verus! {

/// Candles fetched for one classification.
pub const CANDLES_TO_FETCH: i64 = 100;

/// Seconds between refreshes.
pub const RUN_INTERVAL_SECS: u64 = 900;

/// The classified timeframes and their lengths.
pub open spec fn regime_interval_table() -> Seq<(&'static str, i64)> {
    seq![("1h", 3_600_000), ("4h", 14_400_000)]
}

pub fn regime_intervals() -> (r: Vec<(&'static str, i64)>)
    ensures
        r@ == regime_interval_table(),
{
    vec![("1h", 3_600_000), ("4h", 14_400_000)]
}

/// The start of the fetched range: `CANDLES_TO_FETCH` intervals before now.
pub fn regime_fetch_start(now_ms: i64, interval_ms: i64) -> (r: i64)
    requires
        0 < interval_ms <= 14_400_000,
        now_ms >= i64::MIN + CANDLES_TO_FETCH * 14_400_000,
    ensures
        r == now_ms - CANDLES_TO_FETCH * interval_ms,
{
    now_ms - CANDLES_TO_FETCH * interval_ms
}

/// The time a classification is stamped with: the last candle's open, or
/// now when there is none.
pub fn regime_candle_ts(candles: &[OhlcvRow], now_ms: i64) -> (r: i64)
    ensures
        r == (if candles@.len() == 0 { now_ms } else { candles@.last().bucket_ms }),
{
    if candles.len() == 0 {
        now_ms
    } else {
        candles[candles.len() - 1].bucket_ms
    }
}

} // verus!
