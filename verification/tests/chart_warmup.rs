use hyperliquid_lens::chart::warmup::{
    merge_candles, ChartWarmupConfig, IndicatorProfile, TimeframeWarmupConfig, WarmupError,
    WarmupRequest,
};
use hyperliquid_lens::db::trades::OhlcvRow;
use hyperliquid_lens::decimal::Dec;

fn profile() -> IndicatorProfile {
    IndicatorProfile {
        ema_periods: vec![50, 100, 200],
        sma_periods: vec![],
        rolling_volume_periods: vec![20],
        market_structure_lookbacks: vec![20, 50],
        orb_window_bars: None,
        vwap_sessions: false,
        multi_symbol_context_bars: vec![],
    }
}

fn config() -> ChartWarmupConfig {
    ChartWarmupConfig {
        default_visible_bars: 300,
        max_remote_bars: 5000,
        indicator_profile: profile(),
        per_timeframe: vec![
            TimeframeWarmupConfig { interval: "1m".to_string(), floor_bars: 2000 },
            TimeframeWarmupConfig { interval: "1h".to_string(), floor_bars: 1000 },
            TimeframeWarmupConfig { interval: "1d".to_string(), floor_bars: 500 },
        ],
    }
}

fn row(bucket_ms: i64, close: i64) -> OhlcvRow {
    let p = Dec::new(close, 0);
    OhlcvRow { bucket_ms, open: p, high: p, low: p, close: p, volume: Dec::new(1, 0) }
}

#[test]
fn stabilization_is_five_times_longest_average() {
    assert_eq!(profile().stabilization_bars(), 1000);
}

#[test]
fn stabilization_takes_largest_lookback() {
    let mut p = profile();
    p.ema_periods = vec![];
    assert_eq!(p.stabilization_bars(), 50);
    p.vwap_sessions = true;
    assert_eq!(p.stabilization_bars(), 390);
    p.orb_window_bars = Some(400);
    assert_eq!(p.stabilization_bars(), 400);
    p.multi_symbol_context_bars = vec![7, 900];
    assert_eq!(p.stabilization_bars(), 900);
    p.sma_periods = vec![181];
    assert_eq!(p.stabilization_bars(), 905);
}

#[test]
fn stabilization_of_empty_profile_is_zero() {
    let p = IndicatorProfile {
        ema_periods: vec![],
        sma_periods: vec![],
        rolling_volume_periods: vec![],
        market_structure_lookbacks: vec![],
        orb_window_bars: None,
        vwap_sessions: false,
        multi_symbol_context_bars: vec![],
    };
    assert_eq!(p.stabilization_bars(), 0);
}

#[test]
fn stabilization_saturates() {
    let mut p = profile();
    p.ema_periods = vec![usize::MAX / 2];
    assert_eq!(p.stabilization_bars(), usize::MAX);
}

#[test]
fn policy_lookup() {
    let c = config();
    assert_eq!(c.policy_for("1h").map(|t| t.floor_bars), Some(1000));
    assert!(c.policy_for("5m").is_none());
}

#[test]
fn plan_with_defaults() {
    let c = config();
    let p = c
        .build_plan(WarmupRequest { interval: "1h", visible_bars: None, local_candle_count: 10 })
        .unwrap();
    assert_eq!(p.interval, "1h");
    assert_eq!(p.visible_bars, 300);
    assert_eq!(p.visible_range_bars, 600);
    assert_eq!(p.stabilization_bars, 1000);
    assert_eq!(p.floor_bars, 1000);
    assert_eq!(p.requested_bars, 1000);
    assert_eq!(p.remote_fetch_bars, 1000);
    assert!(p.needs_remote);
}

#[test]
fn plan_caps_remote_fetch() {
    let c = config();
    let p = c
        .build_plan(WarmupRequest { interval: "1m", visible_bars: Some(4000), local_candle_count: 9000 })
        .unwrap();
    assert_eq!(p.visible_range_bars, 8000);
    assert_eq!(p.requested_bars, 8000);
    assert_eq!(p.remote_fetch_bars, 5000);
    assert!(!p.needs_remote);
}

#[test]
fn plan_range_saturates() {
    let c = config();
    let p = c
        .build_plan(WarmupRequest { interval: "1d", visible_bars: Some(usize::MAX), local_candle_count: 0 })
        .unwrap();
    assert_eq!(p.visible_range_bars, usize::MAX);
    assert_eq!(p.requested_bars, usize::MAX);
    assert_eq!(p.remote_fetch_bars, 5000);
}

#[test]
fn plan_for_unknown_interval_fails() {
    let c = config();
    let e = c
        .build_plan(WarmupRequest { interval: "3m", visible_bars: None, local_candle_count: 0 })
        .unwrap_err();
    match &e {
        WarmupError::UnsupportedInterval(i) => assert_eq!(i, "3m"),
    }
    assert_eq!(e.message(), "unsupported warm-up interval: 3m");
}

#[test]
fn plan_requests_at_least_floor_range_and_stabilization() {
    let c = config();
    for vis in [None, Some(0), Some(10), Some(700), Some(3000)] {
        for interval in ["1m", "1h", "1d"] {
            let p = c
                .build_plan(WarmupRequest { interval, visible_bars: vis, local_candle_count: 1500 })
                .unwrap();
            assert!(p.requested_bars >= p.floor_bars);
            assert!(p.requested_bars >= p.visible_range_bars);
            assert!(p.requested_bars >= p.stabilization_bars);
            assert!(p.remote_fetch_bars <= c.max_remote_bars);
            assert_eq!(p.needs_remote, 1500 < p.requested_bars);
        }
    }
}

#[test]
fn merge_prefers_local_and_sorts() {
    let snapshot = vec![row(3000, 3), row(1000, 1), row(2000, 2)];
    let local = vec![row(2000, 20), row(4000, 40)];
    let merged = merge_candles(snapshot, local);
    let got: Vec<(i64, i128)> = merged.iter().map(|r| (r.bucket_ms, r.close.mantissa)).collect();
    assert_eq!(got, vec![(1000, 1), (2000, 20), (3000, 3), (4000, 40)]);
}

#[test]
fn merge_later_duplicate_wins() {
    let merged = merge_candles(vec![row(1000, 1), row(1000, 2)], vec![]);
    assert_eq!(merged.len(), 1);
    assert_eq!(merged[0].close.mantissa, 2);
    assert!(merge_candles(vec![], vec![]).is_empty());
}

#[test]
fn stabilization_never_drops_when_adding() {
    let base = profile();
    let before = base.stabilization_bars();
    let mut p = profile();
    p.ema_periods.push(10);
    assert!(p.stabilization_bars() >= before);
    p.market_structure_lookbacks.push(2_000);
    assert_eq!(p.stabilization_bars(), 2_000);
    let mut q = profile();
    q.orb_window_bars = Some(30);
    assert!(q.stabilization_bars() >= before);
    q.vwap_sessions = true;
    assert_eq!(q.stabilization_bars(), 1000);
}
