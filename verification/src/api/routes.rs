//! Request parameters and the rules the handlers apply to them.

use vstd::prelude::*;
use crate::detection::candle_builder::trunc_div;
use crate::text::text_eq;
use crate::db::heartbeat::HeartbeatRow;

verus! {

/// `GET /trades` parameters.
#[derive(Clone, Debug)]
pub struct TradesQuery {
    pub coin: String,
    pub from: Option<i64>,
    pub to: Option<i64>,
    pub limit: i64,
}

/// `GET /trades/summary` parameters.
#[derive(Clone, Debug)]
pub struct SummaryQuery {
    pub coin: String,
    /// One of 1m, 5m, 15m, 1h, 4h, 1d.
    pub interval: String,
    pub from: Option<i64>,
    pub to: Option<i64>,
    pub visible_bars: Option<usize>,
}

/// WebSocket subscription parameters.
#[derive(Clone, Debug)]
pub struct WsQuery {
    pub coin: String,
}

/// `GET /events` parameters.
#[derive(Clone, Debug)]
pub struct EventsQuery {
    pub coin: String,
    pub interval: Option<String>,
    pub event_type: Option<String>,
    pub lifecycle: Option<String>,
    /// "live" or "backfill".
    pub source: Option<String>,
    pub from: Option<i64>,
    pub to: Option<i64>,
    pub limit: i64,
}

/// `GET /events/stats` parameters.
#[derive(Clone, Debug)]
pub struct EventStatsQuery {
    pub coin: String,
    pub interval: Option<String>,
    pub event_type: Option<String>,
}

/// The row limit when a request gives none.
pub fn default_limit() -> (r: i64)
    ensures
        r == 100,
{
    100
}

/// The summary interval when a request gives none.
pub fn default_interval() -> (r: String)
    ensures
        r@ == "1h"@,
{
    "1h".to_owned()
}

/// The length of a summary interval.
pub open spec fn interval_length(s: Seq<char>) -> Option<i64> {
    if s == "1m"@ {
        Some(60_000)
    } else if s == "5m"@ {
        Some(300_000)
    } else if s == "15m"@ {
        Some(900_000)
    } else if s == "1h"@ {
        Some(3_600_000)
    } else if s == "4h"@ {
        Some(14_400_000)
    } else if s == "1d"@ {
        Some(86_400_000)
    } else {
        None
    }
}

pub fn interval_to_ms(interval: &str) -> (r: Option<i64>)
    ensures
        r == interval_length(interval@),
{
    if text_eq(interval, "1m") {
        Some(60_000)
    } else if text_eq(interval, "5m") {
        Some(300_000)
    } else if text_eq(interval, "15m") {
        Some(900_000)
    } else if text_eq(interval, "1h") {
        Some(3_600_000)
    } else if text_eq(interval, "4h") {
        Some(14_400_000)
    } else if text_eq(interval, "1d") {
        Some(86_400_000)
    } else {
        None
    }
}

/// The message for an interval the summary does not support.
pub fn invalid_interval_message() -> (r: &'static str)
    ensures
        r@ == "invalid interval, use: 1m 5m 15m 1h 4h 1d"@,
{
    "invalid interval, use: 1m 5m 15m 1h 4h 1d"
}

/// `limit.clamp(1, max)`.
pub open spec fn clamped(limit: i64, max: i64) -> i64 {
    if limit < 1 {
        1
    } else if limit > max {
        max
    } else {
        limit
    }
}

/// Trades per request: between 1 and 1000.
pub fn trades_limit(limit: i64) -> (r: i64)
    ensures
        r == clamped(limit, 1000),
{
    if limit < 1 {
        1
    } else if limit > 1000 {
        1000
    } else {
        limit
    }
}

/// Events per request: between 1 and 500.
pub fn events_limit(limit: i64) -> (r: i64)
    ensures
        r == clamped(limit, 500),
{
    if limit < 1 {
        1
    } else if limit > 500 {
        500
    } else {
        limit
    }
}

/// How one coin's trade feed is doing.
#[derive(Clone, Copy, Debug, PartialEq, Eq, Structural)]
pub struct FeedHealth {
    /// Whole seconds since the coin's last trade.
    pub lag_s: i64,
    /// More than a minute without a trade.
    pub stale: bool,
}

pub fn feed_health(now_ms: i64, last_trade_ts_ms: i64) -> (r: FeedHealth)
    ensures
        r.lag_s == trunc_div(now_ms - last_trade_ts_ms, 1000),
        r.stale == (r.lag_s > 60),
{
    let diff: i128 = now_ms as i128 - last_trade_ts_ms as i128;
    let q: i128 = diff / 1000;
    proof {
        if diff >= 0 {
            assert(q == diff / 1000);
        } else {
            assert(q == -((-diff) / 1000));
        }
        assert(-18_446_744_073_709_552 <= q <= 18_446_744_073_709_552);
    }
    let lag_s = q as i64;
    FeedHealth { lag_s, stale: lag_s > 60 }
}

/// The health of each stored heartbeat's feed.
pub fn feeds_health(now_ms: i64, rows: &[HeartbeatRow]) -> (r: Vec<FeedHealth>)
    ensures
        r@.len() == rows@.len(),
        forall|i: int| 0 <= i < rows@.len() ==> {
            &&& (#[trigger] r@[i]).lag_s == trunc_div(now_ms - rows@[i].last_trade_ts_ms, 1000)
            &&& r@[i].stale == (r@[i].lag_s > 60)
        },
{
    let mut out: Vec<FeedHealth> = Vec::new();
    let mut i: usize = 0;
    while i < rows.len()
        invariant
            0 <= i <= rows@.len(),
            out@.len() == i,
            forall|k: int| 0 <= k < i ==> {
                &&& (#[trigger] out@[k]).lag_s == trunc_div(now_ms - rows@[k].last_trade_ts_ms, 1000)
                &&& out@[k].stale == (out@[k].lag_s > 60)
            },
        decreases rows@.len() - i,
    {
        out.push(feed_health(now_ms, rows[i].last_trade_ts_ms));
        i = i + 1;
    }
    out
}

/// The service's status as `GET /health` reports it: always `ok`; the
/// per-feed lag and staleness are reported beside it.
pub fn health_status(feeds: &[FeedHealth]) -> (r: &'static str)
    ensures
        r@ == "ok"@,
{
    "ok"
}

/// Where summary candles come from.
#[derive(Clone, Copy, Debug, PartialEq, Eq, Structural)]
pub enum SummarySource {
    /// No range given: local candles, with recent gaps warmed from the
    /// exchange.
    Live,
    /// A full range: the exchange's candles merged with local ones.
    Range { from: i64, to: i64 },
    /// A half-open range: local candles only.
    Local,
}

pub fn summary_source(from: Option<i64>, to: Option<i64>) -> (r: SummarySource)
    ensures
        r == (match (from, to) {
            (None, None) => SummarySource::Live,
            (Some(f), Some(t)) => SummarySource::Range { from: f, to: t },
            _ => SummarySource::Local,
        }),
{
    match (from, to) {
        (None, None) => SummarySource::Live,
        (Some(f), Some(t)) => SummarySource::Range { from: f, to: t },
        _ => SummarySource::Local,
    }
}

/// Where a warm-up fetch starts: `bars` intervals before now.
pub fn remote_start_ms(now_ms: i64, interval_ms: i64, bars: usize) -> (r: i64)
    requires
        0 < interval_ms,
        interval_ms * bars <= i64::MAX,
        i64::MIN <= now_ms - interval_ms * bars,
    ensures
        r == now_ms - interval_ms * bars,
{
    proof {
        assert(interval_ms * bars >= 0) by (nonlinear_arith)
            requires
                interval_ms > 0,
        ;
        assert(bars <= i64::MAX) by (nonlinear_arith)
            requires
                interval_ms * bars <= i64::MAX,
                interval_ms >= 1,
                bars >= 0,
        ;
    }
    now_ms - interval_ms * (bars as i64)
}

/// The coin a trade stream serves: the requested name in upper case.
pub fn stream_coin(requested: &str) -> (r: String)
    ensures
        r@ == crate::text::uppercase(requested@),
{
    crate::text::to_upper(requested)
}

/// Whether a trade goes out on the stream for `coin`: only trades of that
/// very coin do.
pub fn streams_trade(coin: &str, trade_coin: &str) -> (r: bool)
    ensures
        r == (trade_coin@ == coin@),
{
    text_eq(trade_coin, coin)
}

/// Request limits stay within their bounds and leave in-range limits
/// unchanged: trades between 1 and 1000, events between 1 and 500.
pub proof fn law_limits_clamped(limit: i64)
    ensures
        1 <= clamped(limit, 1000) <= 1000,
        1 <= clamped(limit, 500) <= 500,
        1 <= limit <= 1000 ==> clamped(limit, 1000) == limit,
        1 <= limit <= 500 ==> clamped(limit, 500) == limit,
{
}

/// The summary endpoint and the detectors agree on interval lengths: every
/// detection interval's label names its own length.
pub proof fn law_interval_names_agree()
    ensures
        forall|i: int|
            0 <= i < crate::detection::interval_config::config_table().len() ==> interval_length(
                (#[trigger] crate::detection::interval_config::config_table()[i]).label@,
            ) == Some(crate::detection::interval_config::config_table()[i].interval_ms),
{
    reveal_strlit("1m");
    reveal_strlit("5m");
    reveal_strlit("15m");
    reveal_strlit("1h");
    reveal_strlit("4h");
    reveal_strlit("1d");
    assert("1m"@[0] == '1' && "1m"@[1] == 'm');
    assert("5m"@[0] == '5' && "5m"@[1] == 'm');
    assert("1h"@[0] == '1' && "1h"@[1] == 'h');
    assert("4h"@[0] == '4' && "4h"@[1] == 'h');
    assert("1d"@[0] == '1' && "1d"@[1] == 'd');
    let t = crate::detection::interval_config::config_table();
    assert(interval_length(t[0].label@) == Some(t[0].interval_ms));
    assert(interval_length(t[1].label@) == Some(t[1].interval_ms));
    assert(interval_length(t[2].label@) == Some(t[2].interval_ms));
    assert(interval_length(t[3].label@) == Some(t[3].interval_ms));
    assert(interval_length(t[4].label@) == Some(t[4].interval_ms));
    assert(interval_length(t[5].label@) == Some(t[5].interval_ms));
}
} // verus!
