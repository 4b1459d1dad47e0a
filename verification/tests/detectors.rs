use hyperliquid_lens::decimal::Dec;
use hyperliquid_lens::detection::candle_builder::{Candle, CandleBuilder};
use hyperliquid_lens::detection::cascade_detector::CascadeDetector;
use hyperliquid_lens::detection::interval_config::{all_configs, config_for, IntervalConfig};
use hyperliquid_lens::detection::pipeline::{DetectionPipeline, Detectors};
use hyperliquid_lens::detection::sweep_detector::SweepDetector;
use hyperliquid_lens::detection::swing_detector::{SwingDetector, SwingKind, SwingLevel};
use hyperliquid_lens::detection::types::{CascadeDirection, SweepDirection};
use hyperliquid_lens::ingester::parser::Trade;
use rust_decimal::Decimal;

fn value(d: Dec) -> Decimal {
    Decimal::from_i128_with_scale(d.mantissa, d.scale)
}

fn dec(text: &str) -> Decimal {
    text.parse().unwrap()
}

fn px(m: i64) -> Dec {
    Dec::new(m, 0)
}

/// A small configuration: pivots over three candles, a three-candle
/// volume baseline and a two-candle cascade window.
fn small_cfg() -> IntervalConfig {
    IntervalConfig {
        label: "1m",
        interval_ms: 60_000,
        swing_lookback: 1,
        wick_min_frac: Dec::new(1, 3),
        volume_baseline_candles: 3,
        volume_spike_multiplier: Dec::new(12, 1),
        outcome_window_ms: 900_000,
        cascade_guard_candles: 3,
        cascade_sustain_candles: 2,
        reversal_threshold_frac: Dec::new(1, 3),
        level_expiry_candles: 3,
    }
}

fn candle(bucket_ms: i64, o: i64, h: i64, l: i64, c: i64, vol: i64, liq: u32) -> Candle {
    Candle {
        bucket_ms,
        open: px(o),
        high: px(h),
        low: px(l),
        close: px(c),
        volume: px(vol),
        trade_count: 10,
        liq_count: liq,
    }
}

fn trade(coin: &str, price: i64, size: i64, ts: i64, liq: bool) -> Trade {
    Trade {
        coin: coin.to_string(),
        side: "B".to_string(),
        price: px(price),
        size: px(size),
        timestamp_ms: ts,
        trade_hash: format!("0x{ts}"),
        is_liquidation: liq,
    }
}

fn high_level(price: i64) -> SwingLevel {
    SwingLevel { price: px(price), formed_ts_ms: 0, kind: SwingKind::High, strength: 1, age_candles: 1 }
}

fn low_level(price: i64) -> SwingLevel {
    SwingLevel { price: px(price), formed_ts_ms: 0, kind: SwingKind::Low, strength: 1, age_candles: 1 }
}

#[test]
fn interval_table() {
    let labels: Vec<&str> = all_configs().iter().map(|c| c.label).collect();
    assert_eq!(labels, vec!["1m", "5m", "15m", "1h", "4h", "1d"]);
    let h = config_for("1h").unwrap();
    assert_eq!(h.interval_ms, 3_600_000);
    assert_eq!(h.swing_lookback, 6);
    assert_eq!(value(h.wick_min_frac), dec("0.0012"));
    assert_eq!(value(h.volume_spike_multiplier), dec("1.4"));
    assert_eq!(h.outcome_window_ms, 86_400_000);
    assert_eq!(value(h.reversal_threshold_frac), dec("0.005"));
    assert_eq!(h.level_expiry_candles, 50);
    assert!(config_for("2h").is_none());
    assert_eq!(IntervalConfig::interval_label_to_ms("4h"), Some(14_400_000));
    assert_eq!(IntervalConfig::interval_label_to_ms("1d"), Some(86_400_000));
    assert_eq!(IntervalConfig::interval_label_to_ms("1w"), None);
}

#[test]
fn candle_builder_emits_on_next_bucket() {
    let mut b = CandleBuilder::new(60_000);
    assert!(b.push(&trade("BTC", 100, 1, 60_500, false)).is_none());
    assert!(b.push(&trade("BTC", 105, 2, 61_000, true)).is_none());
    assert!(b.push(&trade("BTC", 98, 3, 119_999, false)).is_none());
    let c = b.push(&trade("BTC", 101, 1, 120_000, false)).unwrap();
    assert_eq!(c.bucket_ms, 60_000);
    assert_eq!(value(c.open), dec("100"));
    assert_eq!(value(c.high), dec("105"));
    assert_eq!(value(c.low), dec("98"));
    assert_eq!(value(c.close), dec("98"));
    assert_eq!(value(c.volume), dec("6"));
    assert_eq!(c.trade_count, 3);
    assert_eq!(c.liq_count, 1);
}

#[test]
fn candle_builder_drops_late_trades() {
    let mut b = CandleBuilder::new(60_000);
    assert!(b.push(&trade("BTC", 100, 1, 180_000, false)).is_none());
    assert!(b.push(&trade("BTC", 1, 1, 10_000, false)).is_none());
    let c = b.push(&trade("BTC", 101, 1, 240_000, false)).unwrap();
    assert_eq!(c.bucket_ms, 180_000);
    assert_eq!(value(c.low), dec("100"));
    assert_eq!(c.trade_count, 1);
}

#[test]
fn candle_builder_accepts_trades_below_overflow() {
    let mut b = CandleBuilder::new(60_000);
    let t = trade("BTC", 100, 1, 0, false);
    assert!(b.accepts(&t));
    b.push(&t);
    assert!(b.accepts(&trade("BTC", 100, 2, 1_000, false)));
    // Sizes with many decimals or far beyond everyday volumes are merged.
    let fine = Trade { size: Dec { mantissa: 123_456_789_012_345_678_901_234, scale: 20 }, ..trade("BTC", 100, 2, 1_000, false) };
    assert!(b.accepts(&fine));
    let big = Trade { size: Dec::new(i64::MAX, 0), ..trade("BTC", 100, 2, 1_000, false) };
    assert!(b.accepts(&big));
    // Beyond 2^88 the sum is still computed.
    let huge = Trade { size: Dec { mantissa: 309_485_009_821_345_068_724_781_057, scale: 0 }, ..trade("BTC", 100, 2, 1_000, false) };
    assert!(b.accepts(&huge));
    // A sum beyond 2^96 - 1 would overflow.
    let top = Trade { size: Dec { mantissa: 79_228_162_514_264_337_593_543_950_335, scale: 0 }, ..trade("BTC", 100, 2, 1_000, false) };
    assert!(!b.accepts(&top));
    let later = Trade { size: Dec { mantissa: 309_485_009_821_345_068_724_781_057, scale: 0 }, ..trade("BTC", 100, 2, 61_000, false) };
    assert!(b.accepts(&later));
}

#[test]
fn candle_volume_adds_fine_sizes_exactly() {
    let mut b = CandleBuilder::new(60_000);
    b.push(&Trade { size: Dec { mantissa: 1, scale: 20 }, ..trade("BTC", 100, 1, 0, false) });
    b.push(&Trade { size: Dec { mantissa: 2, scale: 25 }, ..trade("BTC", 100, 1, 1_000, false) });
    let c = b.push(&trade("BTC", 100, 1, 60_000, false)).unwrap();
    assert_eq!(value(c.volume), dec("0.0000000000000000000100002"));
    assert_eq!(c.trade_count, 2);
}

#[test]
fn candle_validity() {
    assert!(candle(0, 10, 12, 9, 11, 5, 0).is_wf());
    // Zero prices, many decimals, large prices and volumes are all valid.
    assert!(candle(0, 10, 12, 0, 0, 5, 0).is_wf());
    let mut c = candle(0, 10, 12, 9, 11, 5, 0);
    c.high = Dec { mantissa: 120_000_000_000_000_000_000_001, scale: 22 };
    c.volume = Dec { mantissa: 1_000_000_000_000_000_000_001, scale: 0 };
    assert!(c.is_wf());
    // A scale beyond 28 is not.
    c.close = Dec { mantissa: 1, scale: 29 };
    assert!(!c.is_wf());
}

#[test]
fn detectors_take_finely_priced_candles() {
    // A coin priced around 0.000012345678901 (15 decimals).
    let cfg = small_cfg();
    let mut d = Detectors::new(&cfg);
    let p = |m: i128| Dec { mantissa: m, scale: 15 };
    let mk = |ts: i64, o: i128, h: i128, l: i128, c: i128| Candle {
        bucket_ms: ts,
        open: p(o),
        high: p(h),
        low: p(l),
        close: p(c),
        volume: Dec { mantissa: 123_456_789_012_345, scale: 9 },
        trade_count: 3,
        liq_count: 0,
    };
    d.push(mk(0, 12_345_678_901, 12_345_678_950, 12_345_678_800, 12_345_678_900));
    d.push(mk(60_000, 12_345_678_900, 12_345_679_500, 12_345_678_850, 12_345_679_000));
    d.push(mk(120_000, 12_345_679_000, 12_345_679_100, 12_345_678_900, 12_345_679_050));
    // The swing high at 0.000012345679500 is now live; a wick above it that
    // closes back under sweeps it.
    let (sweeps, _) = d.push(mk(180_000, 12_345_679_050, 12_400_000_000, 12_345_679_000, 12_345_679_100));
    assert_eq!(sweeps.len(), 1);
    assert_eq!(sweeps[0].direction, SweepDirection::Bearish);
    assert_eq!(value(sweeps[0].level_price), dec("0.000012345679500"));
}

#[test]
fn swing_high_confirmed_after_lookback() {
    let mut s = SwingDetector::new(&small_cfg());
    assert!(s.push(candle(0, 10, 10, 9, 10, 1, 0)).is_empty());
    assert!(s.push(candle(60_000, 10, 12, 10, 11, 1, 0)).is_empty());
    let levels = s.push(candle(120_000, 11, 11, 10, 10, 1, 0));
    assert_eq!(levels.len(), 1);
    assert_eq!(levels[0].kind, SwingKind::High);
    assert_eq!(value(levels[0].price), dec("12"));
    assert_eq!(levels[0].formed_ts_ms, 60_000);
    assert_eq!(levels[0].strength, 1);
    assert_eq!(levels[0].age_candles, 1);
    assert_eq!(s.live_highs.len(), 1);
    assert!(s.live_lows.is_empty());
}

#[test]
fn swing_levels_are_not_duplicated_and_expire() {
    let mut cfg = small_cfg();
    cfg.level_expiry_candles = 5;
    let mut s = SwingDetector::new(&cfg);
    s.push(candle(0, 10, 10, 9, 10, 1, 0));
    s.push(candle(1, 10, 12, 10, 11, 1, 0));
    assert_eq!(s.push(candle(2, 11, 11, 10, 10, 1, 0)).len(), 1);
    // A second pivot at the same price is not a new level.
    s.push(candle(3, 10, 12, 10, 11, 1, 0));
    let again = s.push(candle(4, 11, 11, 10, 10, 1, 0));
    assert!(again.is_empty());
    assert_eq!(s.live_highs.len(), 1);
    assert_eq!(s.live_highs[0].age_candles, 3);
    s.push(candle(5, 10, 10, 10, 10, 1, 0));
    assert_eq!(s.live_highs.len(), 1);
    assert_eq!(s.live_highs[0].age_candles, 4);
    // At the expiry age the level is dropped.
    s.push(candle(6, 10, 10, 10, 10, 1, 0));
    assert!(s.live_highs.is_empty());
}

#[test]
fn swing_low_pivot() {
    let mut s = SwingDetector::new(&small_cfg());
    s.push(candle(0, 10, 11, 9, 10, 1, 0));
    s.push(candle(1, 10, 11, 7, 10, 1, 0));
    let levels = s.push(candle(2, 10, 11, 8, 10, 1, 0));
    assert_eq!(levels.len(), 1);
    assert_eq!(levels[0].kind, SwingKind::Low);
    assert_eq!(value(levels[0].price), dec("7"));
}

#[test]
fn sweep_of_high_and_low() {
    let mut d = SweepDetector::new(&small_cfg());
    let c = candle(60_000, 100, 101, 98, 99, 5, 2);
    let r = d.push(&c, &[high_level(100), high_level(110)], &[low_level(99), low_level(98)]);
    assert_eq!(r.len(), 1);
    assert_eq!(r[0].direction, SweepDirection::Bearish);
    assert_eq!(value(r[0].level_price), dec("100"));
    assert_eq!(value(r[0].sweep_extreme), dec("101"));
    assert_eq!(value(r[0].wick_pct), dec("0.01"));
    assert_eq!(value(r[0].close_price), dec("99"));
    assert_eq!(value(r[0].candle_volume), dec("5"));
    assert_eq!(r[0].liq_count, 2);
    assert_eq!(r[0].candle_ts_ms, 60_000);
    assert!(!r[0].volume_spike);

    let c2 = candle(120_000, 99, 100, 97, 99, 5, 0);
    let r2 = d.push(&c2, &[], &[low_level(98)]);
    assert_eq!(r2.len(), 1);
    assert_eq!(r2[0].direction, SweepDirection::Bullish);
    assert_eq!(value(r2[0].sweep_extreme), dec("97"));
    assert_eq!(value(r2[0].wick_pct), dec("1") / dec("98"));
}

#[test]
fn sweep_needs_minimum_wick() {
    let mut d = SweepDetector::new(&small_cfg());
    // The wick goes 0.05% above the level, less than the 0.1% minimum.
    let c = Candle { high: Dec::new(100_050, 3), ..candle(0, 100, 100, 99, 99, 5, 0) };
    assert!(d.push(&c, &[high_level(100)], &[]).is_empty());
}

#[test]
fn sweep_flags_volume_spike() {
    let mut d = SweepDetector::new(&small_cfg());
    d.push(&candle(0, 10, 10, 10, 10, 1, 0), &[], &[]);
    d.push(&candle(1, 10, 10, 10, 10, 1, 0), &[], &[]);
    let r = d.push(&candle(2, 100, 101, 98, 99, 10, 0), &[high_level(100)], &[]);
    // Baseline (1 + 1 + 10) / 3 = 4, times 1.2 = 4.8, below 10.
    assert!(r[0].volume_spike);
}

#[test]
fn cascade_reported_once_per_run() {
    let mut d = CascadeDetector::new(&small_cfg());
    assert!(d.push(candle(0, 10, 11, 10, 11, 1, 0)).unwrap().is_none());
    assert!(d.push(candle(60_000, 11, 11, 9, 9, 10, 1)).unwrap().is_none());
    let c = d.push(candle(120_000, 9, 9, 8, 8, 10, 2)).unwrap().unwrap();
    assert_eq!(c.direction, CascadeDirection::LongLiq);
    assert_eq!(value(c.start_price), dec("11"));
    assert_eq!(value(c.end_price), dec("8"));
    assert_eq!(c.liq_count_total, 3);
    assert_eq!(c.candles_sustained, 2);
    assert_eq!(value(c.volume_acceleration), dec("1"));
    assert_eq!(c.start_ts_ms, 60_000);
    assert_eq!(c.end_ts_ms, 120_000);
    // The run continues: no second report.
    assert!(d.push(candle(180_000, 8, 8, 7, 7, 30, 5)).unwrap().is_none());
    // A mixed window resets; a new bearish run reports again.
    assert!(d.push(candle(240_000, 7, 9, 7, 9, 1, 0)).unwrap().is_none());
    assert!(d.push(candle(300_000, 9, 9, 8, 8, 40, 1)).unwrap().is_none());
    let again = d.push(candle(360_000, 8, 8, 6, 6, 80, 1)).unwrap().unwrap();
    assert_eq!(again.direction, CascadeDirection::LongLiq);
    assert_eq!(value(again.volume_acceleration), dec("2"));
}

#[test]
fn cascade_stays_quiet_over_a_long_run() {
    let mut d = CascadeDetector::new(&small_cfg());
    d.push(candle(0, 10, 11, 10, 11, 1, 0));
    d.push(candle(60_000, 11, 11, 9, 9, 10, 1));
    assert!(d.push(candle(120_000, 9, 9, 8, 8, 10, 2)).unwrap().is_some());
    // However long the run keeps falling, with ever larger volumes and
    // liquidations, it is not reported again.
    let mut price = 800;
    for k in 3..40i64 {
        let next = price - 10;
        assert!(d.push(Candle {
            open: Dec::new(price, 2),
            high: Dec::new(price, 2),
            low: Dec::new(next, 2),
            close: Dec::new(next, 2),
            ..candle(60_000 * k, 1, 1, 1, 1, 50 * k, 3)
        })
        .unwrap()
        .is_none());
        price = next;
    }
}

#[test]
fn cascade_needs_liquidations_and_volume() {
    let mut d = CascadeDetector::new(&small_cfg());
    d.push(candle(0, 10, 11, 10, 11, 1, 0));
    d.push(candle(1, 11, 11, 9, 9, 10, 0));
    assert!(d.push(candle(2, 9, 9, 8, 8, 10, 0)).unwrap().is_none());

    let mut d = CascadeDetector::new(&small_cfg());
    d.push(candle(0, 10, 11, 10, 11, 10, 0));
    d.push(candle(1, 11, 11, 9, 9, 10, 1));
    assert!(d.push(candle(2, 9, 9, 8, 8, 10, 1)).unwrap().is_none());
}

#[test]
fn cascade_short_liquidation() {
    let mut d = CascadeDetector::new(&small_cfg());
    d.push(candle(0, 10, 10, 9, 9, 1, 0));
    d.push(candle(1, 9, 12, 9, 12, 20, 1));
    let c = d.push(candle(2, 12, 14, 12, 14, 10, 1)).unwrap().unwrap();
    assert_eq!(c.direction, CascadeDirection::ShortLiq);
    assert_eq!(c.liq_count_total, 2);
    assert_eq!(value(c.volume_acceleration), dec("0.5"));
    // The run was reported already, so its liquidations are not totalled.
    assert!(d.liquidations_fit(&candle(3, 14, 15, 14, 15, 1, u32::MAX)));
}

#[test]
fn cascade_liquidation_total_must_fit() {
    let mut d = CascadeDetector::new(&small_cfg());
    d.push(candle(0, 10, 10, 9, 9, 1, u32::MAX));
    assert!(!d.liquidations_fit(&candle(1, 9, 9, 8, 8, 1, 1)));
    assert!(d.liquidations_fit(&candle(1, 9, 9, 8, 8, 1, 0)));
    assert!(d.liquidations_fit(&candle(1, 8, 9, 8, 9, 1, 1)));
}

#[test]
fn detectors_take_zero_prices() {
    let mut d = Detectors::new(&small_cfg());
    let (sweeps, cascade) = d.push(candle(0, 0, 10, 9, 10, 1, 0));
    assert!(sweeps.is_empty());
    assert!(cascade.is_none());
}

#[test]
fn detectors_halt_on_overflow() {
    let mut d = Detectors::new(&small_cfg());
    let big = Dec { mantissa: 50_000_000_000_000_000_000_000_000_000, scale: 0 };
    d.push(Candle { volume: big, ..candle(0, 10, 10, 9, 10, 1, 0) });
    // The second volume takes the baseline sum past 2^96 - 1.
    let (sweeps, cascade) = d.push(Candle { volume: big, ..candle(1, 10, 12, 10, 11, 1, 0) });
    assert!(sweeps.is_empty() && cascade.is_none());
    // The detectors have stopped: the candles that otherwise sweep the
    // high of 12 find nothing.
    d.push(candle(2, 11, 11, 10, 10, 1, 0));
    let (sweeps, _) = d.push(candle(3, 11, 13, 10, 11, 1, 0));
    assert!(sweeps.is_empty());
}

#[test]
fn detectors_find_sweep_of_fresh_level() {
    let mut d = Detectors::new(&small_cfg());
    d.push(candle(0, 10, 10, 9, 10, 1, 0));
    d.push(candle(1, 10, 12, 10, 11, 1, 0));
    d.push(candle(2, 11, 11, 10, 10, 1, 0));
    let (sweeps, _) = d.push(candle(3, 11, 13, 10, 11, 1, 0));
    assert_eq!(sweeps.len(), 1);
    assert_eq!(sweeps[0].direction, SweepDirection::Bearish);
    assert_eq!(value(sweeps[0].level_price), dec("12"));
    assert_eq!(value(sweeps[0].wick_pct), dec("1") / dec("12"));
}

#[test]
fn pipeline_ignores_other_coins_and_emits_candles() {
    let mut p = DetectionPipeline::new("ETH".to_string(), small_cfg());
    assert!(p.on_trade(&trade("BTC", 100, 1, 0, false)).is_none());
    assert!(p.on_trade(&trade("ETH", 100, 1, 0, false)).is_none());
    assert!(p.on_trade(&trade("BTC", 100, 1, 60_000, false)).is_none());
    let d = p.on_trade(&trade("ETH", 101, 1, 60_000, false)).unwrap();
    assert_eq!(d.candle.bucket_ms, 0);
    assert_eq!(d.candle.trade_count, 1);
    assert!(d.sweeps.is_empty());
    assert!(d.cascade.is_none());
}

#[test]
fn pipeline_detects_cascade_from_trades() {
    let mut p = DetectionPipeline::new("SOL".to_string(), small_cfg());
    // Candle 0: bullish, low volume.
    p.on_trade(&trade("SOL", 10, 1, 0, false));
    p.on_trade(&trade("SOL", 11, 0, 1, false));
    // Candle 1: bearish with a liquidation.
    p.on_trade(&trade("SOL", 11, 5, 60_000, true));
    p.on_trade(&trade("SOL", 9, 5, 60_001, false));
    // Candle 2: bearish.
    let d1 = p.on_trade(&trade("SOL", 9, 5, 120_000, false)).unwrap();
    assert!(d1.cascade.is_none());
    p.on_trade(&trade("SOL", 8, 5, 120_001, true));
    let d2 = p.on_trade(&trade("SOL", 8, 1, 180_000, false)).unwrap();
    let c = d2.cascade.unwrap();
    assert_eq!(c.direction, CascadeDirection::LongLiq);
    assert_eq!(c.liq_count_total, 2);
    assert_eq!(value(c.start_price), dec("11"));
    assert_eq!(value(c.end_price), dec("8"));
}

#[test]
fn cascade_overflow_is_reported() {
    let mut d = CascadeDetector::new(&small_cfg());
    d.push(candle(0, 10, 11, 10, 11, 1, 0)).unwrap();
    // A window volume past 2^96 - 1: the average cannot be taken.
    let mut c = candle(60_000, 11, 11, 9, 9, 10, 1);
    c.volume = Dec { mantissa: 50_000_000_000_000_000_000_000_000_000, scale: 0 };
    d.push(c).unwrap();
    assert!(d.push(Candle { volume: c.volume, ..candle(120_000, 9, 9, 8, 8, 10, 2) }).is_none());
}

#[test]
fn sweep_check_finds_overflow() {
    let d = SweepDetector::new(&small_cfg());
    let c = candle(60_000, 100, 101, 98, 99, 5, 2);
    assert!(d.computes(&c, &[high_level(100)], &[low_level(99)]));
    // A wick measured against a zero level divides by zero.
    let zero = SwingLevel { price: Dec::zero(), ..high_level(100) };
    let low = Candle { low: Dec::new(-1, 0), close: Dec::new(-1, 1), ..c };
    assert!(!d.computes(&low, &[zero], &[]));
    // The largest volume as baseline, times the multiplier 1.2, overflows.
    let mut big = c;
    big.volume = Dec { mantissa: 79_228_162_514_264_337_593_543_950_335, scale: 0 };
    assert!(!d.computes(&big, &[], &[]));
    // A baseline of 5 * 10^28 times 1.2 does not.
    big.volume = Dec { mantissa: 50_000_000_000_000_000_000_000_000_000, scale: 0 };
    assert!(d.computes(&big, &[], &[]));
}

#[test]
fn pipeline_halts_on_volume_overflow() {
    let mut p = DetectionPipeline::new("ETH".to_string(), small_cfg());
    assert!(p.on_trade(&trade("ETH", 100, 1, 0, false)).is_none());
    let top = Trade {
        size: Dec { mantissa: 79_228_162_514_264_337_593_543_950_335, scale: 0 },
        ..trade("ETH", 100, 1, 1_000, false)
    };
    assert!(p.on_trade(&top).is_none());
    // Candles still complete, but nothing is detected any more.
    let d = p.on_trade(&trade("ETH", 101, 1, 60_000, false)).unwrap();
    assert_eq!(value(d.candle.volume), dec("1"));
    assert!(d.sweeps.is_empty() && d.cascade.is_none());
}
