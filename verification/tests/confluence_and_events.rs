use hyperliquid_lens::db::trades::OhlcvRow;
use hyperliquid_lens::decimal::Dec;
use hyperliquid_lens::detection::cascade_detector::RawCascade;
use hyperliquid_lens::detection::interval_config::config_for;
use hyperliquid_lens::detection::pipeline::{
    cascade_event, higher_configs, htf_levels, htf_row_checked, htf_window_start, proximity_frac, sweep_event,
};
use hyperliquid_lens::detection::sweep_detector::RawSweep;
use hyperliquid_lens::detection::swing_detector::{SwingKind, SwingLevel};
use hyperliquid_lens::detection::types::{
    CascadeDirection, EventLifecycle, EventSource, EventType, HtfLevel, OutcomeKind, SweepDirection,
};
use rust_decimal::Decimal;

fn value(d: Dec) -> Decimal {
    Decimal::from_i128_with_scale(d.mantissa, d.scale)
}

fn d(text: &str) -> Dec {
    let v: Decimal = text.parse().unwrap();
    Dec { mantissa: v.mantissa(), scale: v.scale() }
}

fn dec(text: &str) -> Decimal {
    text.parse().unwrap()
}

fn row(ts: i64, h: &str, l: &str) -> OhlcvRow {
    OhlcvRow { bucket_ms: ts, open: d(l), high: d(h), low: d(l), close: d(l), volume: d("1") }
}

#[test]
fn higher_timeframes_only() {
    let labels: Vec<&str> = higher_configs(&config_for("15m").unwrap()).iter().map(|c| c.label).collect();
    assert_eq!(labels, vec!["1h", "4h", "1d"]);
    assert!(higher_configs(&config_for("1d").unwrap()).is_empty());
    assert_eq!(higher_configs(&config_for("1m").unwrap()).len(), 5);
}

#[test]
fn proximity_is_five_wicks() {
    assert_eq!(value(proximity_frac(&config_for("1m").unwrap())), dec("0.0015"));
    assert_eq!(value(proximity_frac(&config_for("1h").unwrap())), dec("0.006"));
    assert_eq!(value(proximity_frac(&config_for("1d").unwrap())), dec("0.015"));
}

#[test]
fn htf_window() {
    let h4 = config_for("4h").unwrap();
    assert_eq!(htf_window_start(1_000_000_000_000, &h4), 1_000_000_000_000 - 12 * 14_400_000);
}

#[test]
fn levels_near_price() {
    let h1 = config_for("1h").unwrap();
    let rows = vec![row(0, "100.5", "99"), row(1, "101", "99.7"), row(2, "110", "105"), row(3, "99.9", "99.8")];
    let levels = htf_levels(&d("100"), &h1, &d("0.006"), &rows);
    let got: Vec<(String, Decimal, usize)> =
        levels.iter().map(|l| (l.interval.clone(), value(l.level_price), l.age_candles)).collect();
    assert_eq!(
        got,
        vec![
            ("1h".to_string(), dec("100.5"), 4),
            ("1h".to_string(), dec("99.7"), 3),
            ("1h".to_string(), dec("99.9"), 1),
        ]
    );
    assert!(htf_levels(&d("100"), &h1, &d("0.001"), &rows[..3]).is_empty());
}

#[test]
fn levels_near_a_finely_priced_coin() {
    let h1 = config_for("1h").unwrap();
    let price = d("0.000001234500001");
    let rows = vec![
        row(0, "0.0000012350000017", "0.00000120"),
        row(1, "0.0000013", "0.0000012340000002"),
        row(2, "0.0000015", "0.0000014"),
    ];
    assert!(rows.iter().all(|r| htf_row_checked(&price, r)));
    let levels = htf_levels(&price, &h1, &d("0.006"), &rows);
    let got: Vec<(Decimal, usize)> = levels.iter().map(|l| (value(l.level_price), l.age_candles)).collect();
    assert_eq!(got, vec![(dec("0.0000012350000017"), 3), (dec("0.0000012340000002"), 2)]);
    // Beyond 2^90 but within 2^96 - 1 times the price, a level is measured.
    let far = row(3, "1000000000", "0.000001");
    assert!(htf_row_checked(&d("0.0000000000000000001"), &far));
    // Beyond 2^96 - 1 times the price it cannot be.
    assert!(!htf_row_checked(&d("0.0000000000000000000000000001"), &far));
    // Nor against a price of zero.
    assert!(!htf_row_checked(&d("0"), &far));
}

fn raw_sweep() -> RawSweep {
    let level = SwingLevel { price: d("100"), formed_ts_ms: 0, kind: SwingKind::High, strength: 10, age_candles: 12 };
    RawSweep {
        direction: SweepDirection::Bearish,
        level_price: d("100"),
        sweep_extreme: d("100.3"),
        wick_pct: d("0.003"),
        close_price: d("99.8"),
        candle_volume: d("42"),
        liq_count: 2,
        candle_ts_ms: 600_000,
        volume_spike: true,
        swept_level: level,
    }
}

#[test]
fn live_and_replayed_sweep_events() {
    let cfg = config_for("5m").unwrap();
    let htf = vec![HtfLevel { interval: "1h".to_string(), level_price: d("100.2"), age_candles: 2 }];
    let live = sweep_event(&"BTC".to_string(), &cfg, &raw_sweep(), htf, EventSource::Live);
    assert_eq!(live.id, None);
    assert_eq!(live.coin, "BTC");
    assert_eq!(live.interval, "5m");
    assert_eq!(live.event_type, EventType::LiquiditySweep);
    assert_eq!(live.lifecycle, EventLifecycle::Confirming);
    assert_eq!(live.source, EventSource::Live);
    assert_eq!(live.sweep_direction, Some(SweepDirection::Bearish));
    assert_eq!(live.level_price.map(value), Some(dec("100")));
    assert_eq!(live.sweep_extreme.map(value), Some(dec("100.3")));
    assert_eq!(live.wick_pct.map(value), Some(dec("0.003")));
    assert_eq!(live.close_price.map(value), Some(dec("99.8")));
    assert_eq!(live.event_ts_ms, 600_000);
    assert_eq!(value(live.candle_volume), dec("42"));
    assert_eq!(live.htf_confluence.len(), 1);
    assert_eq!(live.outcome, OutcomeKind::Pending);
    assert!(live.cascade_direction.is_none());

    let replayed = sweep_event(&"BTC".to_string(), &cfg, &raw_sweep(), vec![], EventSource::Backfill);
    assert_eq!(replayed.lifecycle, EventLifecycle::Confirmed);
    assert_eq!(replayed.source, EventSource::Backfill);
}

#[test]
fn cascade_events() {
    let cfg = config_for("1m").unwrap();
    let raw = RawCascade {
        direction: CascadeDirection::ShortLiq,
        start_price: d("50"),
        end_price: d("53"),
        liq_count_total: 7,
        candles_sustained: 3,
        volume_acceleration: d("1.8"),
        start_ts_ms: 120_000,
        end_ts_ms: 240_000,
    };
    let e = cascade_event(&"SOL".to_string(), &cfg, &raw, d("90"), EventSource::Live);
    assert_eq!(e.event_type, EventType::LiquidationCascade);
    assert_eq!(e.lifecycle, EventLifecycle::Confirming);
    assert_eq!(e.cascade_direction, Some(CascadeDirection::ShortLiq));
    assert_eq!(e.cascade_start_price.map(value), Some(dec("50")));
    assert_eq!(e.liq_count_total, Some(7));
    assert_eq!(e.candles_sustained, Some(3));
    assert_eq!(e.volume_acceleration.map(value), Some(dec("1.8")));
    assert_eq!(e.event_ts_ms, 120_000);
    assert_eq!(value(e.candle_volume), dec("90"));
    assert!(e.sweep_direction.is_none());
    assert!(e.htf_confluence.is_empty());
    let replayed = cascade_event(&"SOL".to_string(), &cfg, &raw, d("90"), EventSource::Backfill);
    assert_eq!(replayed.lifecycle, EventLifecycle::Confirmed);
}
