use hyperliquid_lens::alert::{
    alert_allowed, cooldown_key, format_event, format_event_checked, should_alert, AlertCooldowns, COOLDOWN_MS,
};
use hyperliquid_lens::api::routes::{
    default_interval, default_limit, events_limit, feed_health, feeds_health, health_status,
    interval_to_ms, invalid_interval_message, remote_start_ms, stream_coin, streams_trade, summary_source,
    trades_limit, FeedHealth, SummarySource,
};
use hyperliquid_lens::backfill::{
    candle_from_row, day_end, replay, resolve_request, warmup_fetch_start, BackfillRequest,
    BackfillRequestError, BackfillSummary, IntervalOutcome, IntervalSummary, DAY_MS,
};
use hyperliquid_lens::db::heartbeat::HeartbeatRow;
use hyperliquid_lens::db::trades::OhlcvRow;
use hyperliquid_lens::decimal::Dec;
use hyperliquid_lens::detection::interval_config::{config_for, IntervalConfig};
use hyperliquid_lens::detection::types::{
    CascadeDirection, EventLifecycle, EventSource, MarketEvent, SweepDirection,
};
use rust_decimal::Decimal;

fn d(text: &str) -> Dec {
    let v: Decimal = text.parse().unwrap();
    Dec { mantissa: v.mantissa(), scale: v.scale() }
}

fn value(x: Dec) -> Decimal {
    Decimal::from_i128_with_scale(x.mantissa, x.scale)
}

fn sweep_event() -> MarketEvent {
    MarketEvent::new_sweep(
        "BTC".to_string(),
        "5m".to_string(),
        SweepDirection::Bullish,
        d("100"),
        d("98"),
        d("0.0123456"),
        d("101.50"),
        d("12"),
        0,
    )
}

fn cascade_event() -> MarketEvent {
    MarketEvent::new_cascade(
        "ETH".to_string(),
        "1m".to_string(),
        CascadeDirection::LongLiq,
        d("2000"),
        4,
        3,
        d("1.5"),
        d("80"),
        0,
    )
}

#[test]
fn request_defaults() {
    assert_eq!(default_limit(), 100);
    assert_eq!(default_interval(), "1h");
}

#[test]
fn summary_intervals() {
    assert_eq!(interval_to_ms("1m"), Some(60_000));
    assert_eq!(interval_to_ms("5m"), Some(300_000));
    assert_eq!(interval_to_ms("15m"), Some(900_000));
    assert_eq!(interval_to_ms("1h"), Some(3_600_000));
    assert_eq!(interval_to_ms("4h"), Some(14_400_000));
    assert_eq!(interval_to_ms("1d"), Some(86_400_000));
    assert_eq!(interval_to_ms("1H"), None);
    assert_eq!(interval_to_ms("30m"), None);
    assert_eq!(invalid_interval_message(), "invalid interval, use: 1m 5m 15m 1h 4h 1d");
}

#[test]
fn limits_are_clamped() {
    assert_eq!(trades_limit(0), 1);
    assert_eq!(trades_limit(-5), 1);
    assert_eq!(trades_limit(250), 250);
    assert_eq!(trades_limit(1000), 1000);
    assert_eq!(trades_limit(5000), 1000);
    assert_eq!(events_limit(i64::MIN), 1);
    assert_eq!(events_limit(500), 500);
    assert_eq!(events_limit(501), 500);
    assert_eq!(trades_limit(default_limit()), 100);
}

#[test]
fn feed_lag_and_staleness() {
    assert_eq!(feed_health(1_000_000, 1_000_000), FeedHealth { lag_s: 0, stale: false });
    assert_eq!(feed_health(1_061_999, 1_000_000), FeedHealth { lag_s: 61, stale: true });
    assert_eq!(feed_health(1_060_999, 1_000_000), FeedHealth { lag_s: 60, stale: false });
    // A heartbeat ahead of the clock rounds toward zero.
    assert_eq!(feed_health(1_000_000, 1_001_500), FeedHealth { lag_s: -1, stale: false });
    assert_eq!(feed_health(i64::MAX, i64::MIN).lag_s, ((i64::MAX as i128 - i64::MIN as i128) / 1000) as i64);
}

#[test]
fn service_status() {
    assert_eq!(health_status(&[]), "ok");
    let rows = vec![
        HeartbeatRow { coin: "BTC".to_string(), last_trade_ts_ms: 990_000 },
        HeartbeatRow { coin: "ETH".to_string(), last_trade_ts_ms: 900_000 },
    ];
    let feeds = feeds_health(1_000_000, &rows);
    assert_eq!(feeds, vec![FeedHealth { lag_s: 10, stale: false }, FeedHealth { lag_s: 100, stale: true }]);
    assert_eq!(health_status(&feeds), "ok");
    assert_eq!(health_status(&feeds[..1]), "ok");
}

#[test]
fn summary_sources() {
    assert_eq!(summary_source(None, None), SummarySource::Live);
    assert_eq!(summary_source(Some(1), Some(2)), SummarySource::Range { from: 1, to: 2 });
    assert_eq!(summary_source(Some(1), None), SummarySource::Local);
    assert_eq!(summary_source(None, Some(2)), SummarySource::Local);
    assert_eq!(remote_start_ms(10_000_000, 60_000, 100), 4_000_000);
}

#[test]
fn alerts_only_for_live_confirming_events() {
    let mut e = sweep_event();
    assert!(!should_alert(&e));
    e.lifecycle = EventLifecycle::Confirming;
    assert!(should_alert(&e));
    e.source = EventSource::Backfill;
    assert!(!should_alert(&e));
}

#[test]
fn alert_cooldown() {
    assert_eq!(COOLDOWN_MS, 300_000);
    assert!(alert_allowed(None));
    assert!(!alert_allowed(Some(299_999)));
    assert!(alert_allowed(Some(300_000)));
}

#[test]
fn cooldowns_space_alerts_per_key() {
    let mut live = sweep_event();
    live.lifecycle = EventLifecycle::Confirming;
    let mut other = cascade_event();
    other.lifecycle = EventLifecycle::Confirming;
    let mut c = AlertCooldowns::new();
    // Events that are not live and entering observation never alert and
    // never stamp their key.
    assert!(!c.on_event(&sweep_event(), 0));
    assert!(c.on_event(&live, 1_000));
    assert!(!c.on_event(&live, 1_000));
    assert!(!c.on_event(&live, 300_999));
    // Another key is independent.
    assert!(c.on_event(&other, 2_000));
    assert!(c.on_event(&live, 301_000));
    assert!(!c.on_event(&live, 301_001));
    assert!(!c.on_event(&other, 301_999));
    assert!(c.on_event(&other, 302_000));
    // A clock that reads earlier than the last alert counts as no time.
    assert!(!c.on_event(&live, 0));
    assert!(c.on_event(&live, 601_000));
}

#[test]
fn wick_percent_range() {
    let mut e = sweep_event();
    assert_eq!(format_event_checked(&e), Some(format_event(&e)));
    // A hundred times the wick passes 2^96 - 1.
    e.wick_pct = Some(d("1000000000000000000000000000"));
    assert_eq!(format_event_checked(&e), None);
    // A percentage of 10^28 or more has too many digits to be written.
    e.wick_pct = Some(d("100000000000000000000000000"));
    assert_eq!(format_event_checked(&e), None);
    // Below that it is written.
    e.wick_pct = Some(d("99999999999999999999999999.99"));
    assert_eq!(
        format_event_checked(&e).unwrap(),
        "<b>[SWEEP] BTC 5m</b>\nBULLISH sweep of $100\nWick 9999999999999999999999999999.000% → close $101.50"
    );
    // Cascades show no wick.
    let mut c = cascade_event();
    c.wick_pct = Some(d("1000000000000000000000000000"));
    assert_eq!(format_event_checked(&c), Some(format_event(&c)));
    e.wick_pct = Some(d("123456789012345678.5"));
    assert_eq!(
        format_event(&e),
        "<b>[SWEEP] BTC 5m</b>\nBULLISH sweep of $100\nWick 12345678901234567850.000% → close $101.50"
    );
}

#[test]
fn cooldown_keys() {
    assert_eq!(cooldown_key(&sweep_event()), "BTC_sweep_Bullish");
    assert_eq!(cooldown_key(&cascade_event()), "ETH_cascade_LongLiq");
    let mut e = sweep_event();
    e.sweep_direction = None;
    assert_eq!(cooldown_key(&e), "BTC_unknown");
}

#[test]
fn sweep_alert_text() {
    assert_eq!(
        format_event(&sweep_event()),
        "<b>[SWEEP] BTC 5m</b>\nBULLISH sweep of $100\nWick 1.234% → close $101.50"
    );
    let mut e = sweep_event();
    e.sweep_direction = Some(SweepDirection::Bearish);
    e.wick_pct = Some(d("0.02"));
    e.close_price = None;
    assert_eq!(format_event(&e), "<b>[SWEEP] BTC 5m</b>\nBEARISH sweep of $100\nWick 2.000% → close ");
}

#[test]
fn cascade_alert_text() {
    assert_eq!(
        format_event(&cascade_event()),
        "<b>[CASCADE] ETH 1m</b>\nLONG LIQ liquidation cascade\nStart $2000 | 4 liqs | 3 candles"
    );
    let mut e = cascade_event();
    e.cascade_direction = None;
    e.liq_count_total = None;
    assert_eq!(
        format_event(&e),
        "<b>[CASCADE] ETH 1m</b>\nUNKNOWN liquidation cascade\nStart $2000 |  liqs | 3 candles"
    );
}

#[test]
fn backfill_windows() {
    assert_eq!(DAY_MS, 86_400_000);
    assert_eq!(day_end(1_709_251_200_000), 1_709_337_600_000);
    let h = config_for("1h").unwrap();
    assert_eq!(warmup_fetch_start(1_709_251_200_000, &h), 1_709_251_200_000 - 14 * 3_600_000);
    let m = config_for("1m").unwrap();
    assert_eq!(warmup_fetch_start(1_709_251_200_000, &m), 1_709_251_200_000 - 22 * 60_000);
}

#[test]
fn backfill_request_resolution() {
    let day = resolve_request(&BackfillRequest { coin: " eth ".to_string(), date: "2024-03-01".to_string() })
        .unwrap();
    assert_eq!(day.coin, "ETH");
    assert_eq!(day.date, "2024-03-01");
    assert_eq!(day.start_ms, 1_709_251_200_000);
    assert_eq!(day.end_ms, 1_709_337_600_000);

    let e = resolve_request(&BackfillRequest { coin: "  ".to_string(), date: "2024-02-30".to_string() })
        .unwrap_err();
    assert_eq!(e, BackfillRequestError::InvalidDate);
    assert_eq!(e.message(), "invalid date, expected YYYY-MM-DD");
    let e = resolve_request(&BackfillRequest { coin: "BTC".to_string(), date: "03/01/2024".to_string() })
        .unwrap_err();
    assert_eq!(e, BackfillRequestError::InvalidDate);
    let e = resolve_request(&BackfillRequest { coin: " \t".to_string(), date: "2023-12-31".to_string() })
        .unwrap_err();
    assert_eq!(e, BackfillRequestError::EmptyCoin);
    assert_eq!(e.message(), "coin must not be empty");
}

fn small_cfg() -> IntervalConfig {
    IntervalConfig {
        label: "1m",
        interval_ms: 60_000,
        swing_lookback: 1,
        wick_min_frac: Dec::new(1, 3),
        volume_baseline_candles: 3,
        volume_spike_multiplier: Dec::new(12, 1),
        outcome_window_ms: 900_000,
        cascade_guard_candles: 3,
        cascade_sustain_candles: 2,
        reversal_threshold_frac: Dec::new(1, 3),
        level_expiry_candles: 10,
    }
}

fn row(ts: i64, o: &str, h: &str, l: &str, c: &str, v: &str) -> OhlcvRow {
    OhlcvRow { bucket_ms: ts, open: d(o), high: d(h), low: d(l), close: d(c), volume: d(v) }
}

#[test]
fn rows_become_candles_without_counts() {
    let c = candle_from_row(&row(60_000, "1", "2", "0.5", "1.5", "7"));
    assert_eq!(c.bucket_ms, 60_000);
    assert_eq!(value(c.high), Decimal::from(2));
    assert_eq!(c.trade_count, 0);
    assert_eq!(c.liq_count, 0);
}

#[test]
fn replay_keeps_only_the_day() {
    let start = 180_000;
    let rows = vec![
        row(0, "10", "10", "9", "10", "1"),
        row(60_000, "10", "12", "10", "11", "1"),
        row(120_000, "11", "11", "10", "10", "1"),
        row(180_000, "11", "13", "10.5", "11", "1"),
        row(240_000, "11", "11", "10.5", "11", "1"),
    ];
    let out = replay(&small_cfg(), start, &rows);
    assert_eq!(out.len(), 2);
    assert_eq!(out[0].candle.bucket_ms, 180_000);
    assert_eq!(out[0].sweeps.len(), 1);
    assert_eq!(out[0].sweeps[0].direction, SweepDirection::Bearish);
    assert_eq!(value(out[0].sweeps[0].level_price), Decimal::from(12));
    assert!(out[0].cascade.is_none());
    assert_eq!(out[1].candle.bucket_ms, 240_000);
    assert!(out[1].sweeps.is_empty());
    // Nothing falls in a day that starts after the rows.
    assert!(replay(&small_cfg(), 1_000_000, &rows).is_empty());
}

#[test]
fn backfill_summary_assembly() {
    let s = BackfillSummary::assemble(
        "BTC".to_string(),
        "2024-03-01".to_string(),
        vec![
            IntervalOutcome::Done(IntervalSummary { interval: "1m".to_string(), sweeps: 3, cascades: 0 }),
            IntervalOutcome::Failed { interval: "5m".to_string(), error: "timeout".to_string() },
            IntervalOutcome::Done(IntervalSummary { interval: "1h".to_string(), sweeps: 2, cascades: 1 }),
        ],
    );
    assert_eq!(s.coin, "BTC");
    assert_eq!(s.date, "2024-03-01");
    assert_eq!(s.events_detected, 6);
    let names: Vec<&str> = s.by_interval.iter().map(|i| i.interval.as_str()).collect();
    assert_eq!(names, vec!["1m", "1h"]);
    assert_eq!(
        s.notes,
        vec![
            "Cascades require per-trade liquidation counts which are not available in OHLCV snapshots. Only liquidity sweeps are detected during backfill.".to_string(),
            "Interval 5m failed: timeout".to_string(),
        ]
    );
}

#[test]
fn replay_never_reports_cascades() {
    // A falling run with rising volume would be a cascade if the rows
    // carried liquidations; snapshot rows carry none.
    let rows = vec![
        row(0, "10", "11", "10", "11", "1"),
        row(60_000, "11", "11", "9", "9", "10"),
        row(120_000, "9", "9", "8", "8", "20"),
        row(180_000, "8", "8", "6", "6", "40"),
    ];
    let out = replay(&small_cfg(), 0, &rows);
    assert_eq!(out.len(), 4);
    assert!(out.iter().all(|d| d.cascade.is_none()));
}

#[test]
fn backfill_days_follow_the_calendar() {
    let day = |date: &str| resolve_request(&BackfillRequest { coin: "btc".to_string(), date: date.to_string() });
    let d = day("1969-12-31").unwrap();
    assert_eq!(d.start_ms, -86_400_000);
    assert_eq!(d.date, "1969-12-31");
    let d = day("2024-02-29").unwrap();
    assert_eq!(d.start_ms, 1_709_164_800_000);
    assert_eq!(d.end_ms, 1_709_251_200_000);
    assert_eq!(day("2023-02-29").unwrap_err(), BackfillRequestError::InvalidDate);
    assert_eq!(day("2000-02-29").unwrap().start_ms, 951_782_400_000);
    assert_eq!(day("1900-02-29").unwrap_err(), BackfillRequestError::InvalidDate);
    let d = day("0001-01-01").unwrap();
    assert_eq!(d.date, "0001-01-01");
    assert_eq!(d.start_ms, -62_135_596_800_000);
}

#[test]
fn trade_stream_serves_requested_coin() {
    let coin = stream_coin("eth");
    assert_eq!(coin, "ETH");
    assert!(streams_trade(&coin, "ETH"));
    assert!(!streams_trade(&coin, "BTC"));
    assert!(!streams_trade(&coin, "eth"));
    assert!(!streams_trade(&coin, "ETH2"));
    assert_eq!(stream_coin(""), "");
}
