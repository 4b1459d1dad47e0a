use hyperliquid_lens::db::trades::OhlcvRow;
use hyperliquid_lens::decimal::Dec;
use hyperliquid_lens::detection::interval_config::config_for;
use hyperliquid_lens::detection::outcome_tracker::{
    cascade_successor, cascade_successor_checked, classify_cascade_outcome, classify_sweep_outcome,
    followup_range, guard_range, guard_wait_ms, outcome_inputs_valid, remaining_wait_ms, resolve_outcome,
    resolve_outcome_checked,
    tracker_step, GuardResult, TrackerEvent, TrackerStep,
};
use hyperliquid_lens::detection::types::{
    CascadeDirection, EventLifecycle, EventType, MarketEvent, OutcomeDetail, OutcomeKind,
    SweepDirection,
};
use rust_decimal::Decimal;

fn value(d: Dec) -> Decimal {
    Decimal::from_i128_with_scale(d.mantissa, d.scale)
}

fn dec(text: &str) -> Decimal {
    text.parse().unwrap()
}

/// A decimal from its text, for the test inputs.
fn d(text: &str) -> Dec {
    let v: Decimal = text.parse().unwrap();
    Dec { mantissa: v.mantissa(), scale: v.scale() }
}

fn row(ts: i64, o: &str, h: &str, l: &str, c: &str, vol: &str) -> OhlcvRow {
    OhlcvRow { bucket_ms: ts, open: d(o), high: d(h), low: d(l), close: d(c), volume: d(vol) }
}

fn sweep(direction: SweepDirection, level: &str, close: &str) -> MarketEvent {
    let mut e = MarketEvent::new_sweep(
        "BTC".to_string(),
        "1m".to_string(),
        direction,
        d(level),
        d(level),
        d("0.01"),
        d(close),
        d("5"),
        0,
    );
    e.id = Some(7);
    e
}

fn cascade(direction: CascadeDirection, start: &str, accel: &str) -> MarketEvent {
    let mut e = MarketEvent::new_cascade(
        "ETH".to_string(),
        "1m".to_string(),
        direction,
        d(start),
        3,
        3,
        d(accel),
        d("10"),
        0,
    );
    e.id = Some(9);
    e
}

fn magnitude(detail: &Option<OutcomeDetail>) -> Decimal {
    value(detail.as_ref().unwrap().magnitude_pct.unwrap())
}

fn note(detail: &Option<OutcomeDetail>) -> Option<String> {
    detail.as_ref().unwrap().failure_note.clone()
}

#[test]
fn bearish_sweep_reversal() {
    let cfg = config_for("1m").unwrap();
    let e = sweep(SweepDirection::Bearish, "101", "100");
    let rows = vec![row(60_000, "100", "100.05", "99", "99.5", "1")];
    let (kind, detail) = resolve_outcome(&e, &cfg, &rows).unwrap();
    assert_eq!(kind, OutcomeKind::ReversalFollowed);
    assert_eq!(magnitude(&detail), dec("0.01"));
    assert_eq!(note(&detail), None);
    let dd = detail.unwrap();
    assert_eq!(dd.duration_ms, None);
    assert!(dd.max_extension.is_none());
}

#[test]
fn bearish_sweep_continuation() {
    let cfg = config_for("1m").unwrap();
    let e = sweep(SweepDirection::Bearish, "103", "100");
    let rows = vec![row(60_000, "100", "102", "99.95", "100.5", "1")];
    let (kind, detail) = resolve_outcome(&e, &cfg, &rows).unwrap();
    assert_eq!(kind, OutcomeKind::ContinuationFollowed);
    assert_eq!(magnitude(&detail), dec("0.02"));
    assert_eq!(
        note(&detail).unwrap(),
        "sweep direction continued (up); reversal expectation failed"
    );
}

#[test]
fn bullish_sweep_continuation_goes_down() {
    let cfg = config_for("1m").unwrap();
    let e = sweep(SweepDirection::Bullish, "97", "100");
    let rows = vec![row(60_000, "100", "100.01", "98", "99", "1")];
    let (kind, detail) = resolve_outcome(&e, &cfg, &rows).unwrap();
    assert_eq!(kind, OutcomeKind::ContinuationFollowed);
    assert_eq!(magnitude(&detail), dec("0.02"));
    assert_eq!(
        note(&detail).unwrap(),
        "sweep direction continued (down); reversal expectation failed"
    );
}

#[test]
fn bearish_sweep_reclaim_anomaly() {
    let cfg = config_for("1m").unwrap();
    let e = sweep(SweepDirection::Bearish, "101", "100");
    let rows = vec![row(60_000, "100", "102", "100", "101.5", "1")];
    let (kind, detail) = resolve_outcome(&e, &cfg, &rows).unwrap();
    assert_eq!(kind, OutcomeKind::ReclaimAnomaly);
    assert_eq!(magnitude(&detail), dec("0"));
    assert_eq!(note(&detail).unwrap(), "price reclaimed sweep level against sweep direction");
}

#[test]
fn sweep_exhaustion() {
    let cfg = config_for("1m").unwrap();
    let e = sweep(SweepDirection::Bearish, "101", "100");
    let rows = vec![row(60_000, "100", "100.05", "99.98", "100", "1")];
    let (kind, detail) = resolve_outcome(&e, &cfg, &rows).unwrap();
    assert_eq!(kind, OutcomeKind::ExhaustionDetected);
    assert_eq!(magnitude(&detail), dec("0.0005"));
    assert_eq!(note(&detail).unwrap(), "price stalled; no directional follow-through");
}

#[test]
fn sweep_absorption() {
    let cfg = config_for("1m").unwrap();
    let e = sweep(SweepDirection::Bearish, "101", "100");
    let rows = vec![
        row(60_000, "100", "100.02", "99.99", "100", "1"),
        row(120_000, "100", "100.02", "99.99", "100", "10"),
    ];
    let (kind, detail) = resolve_outcome(&e, &cfg, &rows).unwrap();
    assert_eq!(kind, OutcomeKind::AbsorptionDetected);
    assert_eq!(magnitude(&detail), dec("0.0002"));
    assert_eq!(note(&detail).unwrap(), "high-volume, small-range candle absorbed the move");
}

#[test]
fn sweep_ambiguous() {
    let cfg = config_for("1m").unwrap();
    let e = sweep(SweepDirection::Bearish, "105", "100");
    let rows = vec![row(60_000, "100", "101", "99", "100", "1")];
    let (kind, detail) = resolve_outcome(&e, &cfg, &rows).unwrap();
    assert_eq!(kind, OutcomeKind::ExpectationFailed);
    assert_eq!(magnitude(&detail), dec("0.01"));
    assert_eq!(
        note(&detail).unwrap(),
        "ambiguous outcome; expected reversal did not clearly materialise"
    );
}

#[test]
fn no_candles_means_expired() {
    let cfg = config_for("1m").unwrap();
    let e = sweep(SweepDirection::Bearish, "101", "100");
    assert!(resolve_outcome(&e, &cfg, &[]).is_none());
}

#[test]
fn sweep_without_direction_stays_pending() {
    let e = MarketEvent { sweep_direction: None, ..sweep(SweepDirection::Bearish, "101", "100") };
    let (kind, detail) =
        classify_sweep_outcome(&e, &[], d("100"), d("0.5"), d("0.5"), d("0.001"), true);
    assert_eq!(kind, OutcomeKind::Pending);
    assert!(detail.is_none());
}

#[test]
fn classify_sweep_directly() {
    let e = sweep(SweepDirection::Bullish, "95", "100");
    let (kind, detail) =
        classify_sweep_outcome(&e, &[], d("100"), d("0.03"), d("0.01"), d("0.005"), false);
    assert_eq!(kind, OutcomeKind::ReversalFollowed);
    assert_eq!(magnitude(&detail), dec("0.03"));
}

#[test]
fn cascade_outcomes() {
    let cfg = config_for("1m").unwrap();
    // Long liquidations: price fell, so a rise is a reversal.
    let e = cascade(CascadeDirection::LongLiq, "100", "2");
    let up = vec![row(60_000, "100", "102", "99.99", "101", "1")];
    let (kind, detail) = resolve_outcome(&e, &cfg, &up).unwrap();
    assert_eq!(kind, OutcomeKind::ReversalFollowed);
    assert_eq!(magnitude(&detail), dec("0.02"));
    assert_eq!(
        note(&detail).unwrap(),
        "violent reversal after cascade (possible short squeeze / long squeeze)"
    );

    let down = vec![row(60_000, "100", "100", "97", "98", "1")];
    let (kind, detail) = resolve_outcome(&e, &cfg, &down).unwrap();
    assert_eq!(kind, OutcomeKind::ContinuationFollowed);
    assert_eq!(magnitude(&detail), dec("0.03"));
    assert_eq!(note(&detail), None);

    let flat = vec![row(60_000, "100", "100.01", "99.99", "100", "1")];
    let (kind, detail) = resolve_outcome(&e, &cfg, &flat).unwrap();
    assert_eq!(kind, OutcomeKind::ExpectationFailed);
    assert_eq!(note(&detail).unwrap(), "cascade ended without clear continuation or reversal");

    let slowing = cascade(CascadeDirection::LongLiq, "100", "0.5");
    let (kind, detail) = resolve_outcome(&slowing, &cfg, &flat).unwrap();
    assert_eq!(kind, OutcomeKind::ExhaustionDetected);
    assert_eq!(magnitude(&detail), dec("0.0001"));
    assert_eq!(note(&detail).unwrap(), "cascade volume decelerated; price stalled");
}

#[test]
fn cascade_classification_directly() {
    let cfg = config_for("1m").unwrap();
    let e = cascade(CascadeDirection::ShortLiq, "100", "1");
    let (kind, detail) = classify_cascade_outcome(&e, &cfg, d("0.0001"), d("0.0002"), true);
    assert_eq!(kind, OutcomeKind::AbsorptionDetected);
    assert_eq!(magnitude(&detail), dec("0.0002"));
    assert_eq!(note(&detail).unwrap(), "large opposing volume absorbed the cascade");

    let (kind, _) = classify_cascade_outcome(&e, &cfg, d("0.01"), d("0.0002"), false);
    assert_eq!(kind, OutcomeKind::ContinuationFollowed);

    let none = MarketEvent { cascade_direction: None, ..e };
    let (kind, detail) = classify_cascade_outcome(&none, &cfg, d("0.01"), d("0.02"), false);
    assert_eq!(kind, OutcomeKind::Pending);
    assert!(detail.is_none());
}

#[test]
fn bearish_sweep_becomes_cascade() {
    let cfg = config_for("1m").unwrap();
    let e = sweep(SweepDirection::Bearish, "101", "100");
    let rows = vec![
        row(60_000, "100", "100", "98", "98", "4"),
        row(120_000, "98", "98", "96", "96", "6"),
        row(180_000, "96", "96", "94", "95", "10"),
        row(240_000, "95", "99", "95", "99", "10"),
    ];
    let s = cascade_successor(&e, &cfg, &rows).unwrap();
    assert_eq!(s.id, None);
    assert_eq!(s.coin, "BTC");
    assert_eq!(s.interval, "1m");
    assert_eq!(s.event_type, EventType::LiquidationCascade);
    assert_eq!(s.lifecycle, EventLifecycle::Confirming);
    assert_eq!(s.cascade_direction, Some(CascadeDirection::LongLiq));
    assert_eq!(value(s.cascade_start_price.unwrap()), dec("100"));
    assert_eq!(s.liq_count_total, Some(0));
    assert_eq!(s.candles_sustained, Some(3));
    assert_eq!(value(s.volume_acceleration.unwrap()), dec("2.5"));
    assert_eq!(value(s.candle_volume), dec("10"));
    assert_eq!(s.event_ts_ms, 60_000);
    assert_eq!(s.reclassified_from, Some(7));
    assert_eq!(s.outcome, OutcomeKind::Pending);
    assert!(s.sweep_direction.is_none());
}

#[test]
fn sweep_kept_when_guard_window_disagrees() {
    let cfg = config_for("1m").unwrap();
    let bullish = sweep(SweepDirection::Bullish, "99", "100");
    let falling = vec![
        row(60_000, "100", "100", "98", "98", "4"),
        row(120_000, "98", "98", "96", "96", "6"),
        row(180_000, "96", "96", "94", "95", "10"),
    ];
    assert!(cascade_successor(&bullish, &cfg, &falling).is_none());
    let bearish = sweep(SweepDirection::Bearish, "101", "100");
    assert!(cascade_successor(&bearish, &cfg, &falling[..2]).is_none());
    let mixed = vec![
        row(60_000, "100", "100", "98", "98", "4"),
        row(120_000, "98", "99", "98", "99", "6"),
        row(180_000, "96", "96", "94", "95", "10"),
    ];
    assert!(cascade_successor(&bearish, &cfg, &mixed).is_none());
}

#[test]
fn rising_window_after_bullish_sweep() {
    let cfg = config_for("1m").unwrap();
    let e = sweep(SweepDirection::Bullish, "99", "100");
    let rows = vec![
        row(60_000, "100", "101", "100", "101", "0"),
        row(120_000, "101", "102", "101", "102", "6"),
        row(180_000, "102", "103", "102", "103", "9"),
    ];
    let s = cascade_successor(&e, &cfg, &rows).unwrap();
    assert_eq!(s.cascade_direction, Some(CascadeDirection::ShortLiq));
    assert_eq!(value(s.volume_acceleration.unwrap()), dec("1"));
}

#[test]
fn tracker_timings() {
    let cfg = config_for("1m").unwrap();
    assert_eq!(guard_wait_ms(&cfg), 180_000);
    assert_eq!(remaining_wait_ms(&cfg), 720_000);
    assert_eq!(guard_range(1_000_000, &cfg), (1_060_000, 1_180_000));
    assert_eq!(followup_range(1_000_000, &cfg), (1_060_000, 1_900_000));
    let mut short = cfg;
    short.outcome_window_ms = 100_000;
    assert_eq!(remaining_wait_ms(&short), 0);
    assert!(guard_wait_ms(&cfg) + remaining_wait_ms(&cfg) >= cfg.outcome_window_ms);
}

#[test]
fn tracker_steps() {
    let cfg = config_for("5m").unwrap();
    assert_eq!(
        tracker_step(None, EventType::LiquiditySweep, &cfg, TrackerEvent::Spawned),
        TrackerStep::Stop
    );
    assert_eq!(
        tracker_step(Some(1), EventType::LiquiditySweep, &cfg, TrackerEvent::Spawned),
        TrackerStep::CheckGuardAfter(900_000)
    );
    assert_eq!(
        tracker_step(Some(1), EventType::LiquidationCascade, &cfg, TrackerEvent::Spawned),
        TrackerStep::ResolveAfter(2_700_000)
    );
    assert_eq!(
        tracker_step(
            Some(1),
            EventType::LiquiditySweep,
            &cfg,
            TrackerEvent::GuardChecked(GuardResult::Reclassified)
        ),
        TrackerStep::Stop
    );
    assert_eq!(
        tracker_step(Some(1), EventType::LiquiditySweep, &cfg, TrackerEvent::GuardChecked(GuardResult::Failed)),
        TrackerStep::ResolveAfter(2_700_000)
    );
    assert_eq!(
        tracker_step(Some(1), EventType::LiquiditySweep, &cfg, TrackerEvent::GuardChecked(GuardResult::Kept)),
        TrackerStep::ResolveAfter(2_700_000)
    );
    assert_eq!(
        tracker_step(Some(1), EventType::LiquiditySweep, &cfg, TrackerEvent::OutcomeResolved(true)),
        TrackerStep::Stop
    );
    assert_eq!(
        tracker_step(Some(1), EventType::LiquiditySweep, &cfg, TrackerEvent::OutcomeResolved(false)),
        TrackerStep::MarkExpired
    );
}

#[test]
fn outcome_of_finely_priced_coin() {
    // Prices with eleven and thirteen decimals and a volume with nine.
    let cfg = config_for("1m").unwrap();
    let e = sweep(SweepDirection::Bearish, "0.00000001010", "0.00000001000");
    let rows = vec![row(
        60_000,
        "0.0000000100000",
        "0.0000000100500",
        "0.0000000099000",
        "0.0000000099500",
        "123456789012.123456789",
    )];
    assert!(outcome_inputs_valid(&e, &rows));
    let (kind, detail) = resolve_outcome(&e, &cfg, &rows).unwrap();
    assert_eq!(kind, OutcomeKind::ReversalFollowed);
    assert_eq!(magnitude(&detail), dec("0.01"));
    // The magnitude comes at the scale rust_decimal gives the quotient.
    let q = dec("0.0000000001000") / dec("0.00000001000");
    assert_eq!(detail.unwrap().magnitude_pct.unwrap().scale, q.scale());
}

#[test]
fn outcome_input_checks() {
    let cfg = config_for("1m").unwrap();
    let e = sweep(SweepDirection::Bearish, "101", "100");
    let rows = vec![row(60_000, "100", "100.05", "99", "99.5", "1")];
    assert!(outcome_inputs_valid(&e, &rows));
    assert_eq!(
        format!("{:?}", resolve_outcome_checked(&e, &cfg, &rows)),
        format!("{:?}", Some(resolve_outcome(&e, &cfg, &rows)))
    );
    assert!(matches!(resolve_outcome_checked(&e, &cfg, &[]), Some(None)));
    // Two volumes whose sum passes 2^96 - 1 overflow the total.
    let heavy = vec![
        row(60_000, "100", "100.05", "99", "99.5", "50000000000000000000000000000"),
        row(120_000, "100", "100.05", "99", "99.5", "50000000000000000000000000000"),
    ];
    assert!(resolve_outcome_checked(&e, &cfg, &heavy).is_none());
    // A volume whose average times 1.5 passes 2^96 - 1 overflows the spike.
    let spiky = vec![row(60_000, "100", "100.05", "99", "99.5", "60000000000000000000000000000")];
    assert!(resolve_outcome_checked(&e, &cfg, &spiky).is_none());
    // A move of more than 2^96 times the reference price overflows.
    let tiny = sweep(SweepDirection::Bearish, "101", "0.0000000000000000000000000001");
    assert!(resolve_outcome_checked(&tiny, &cfg, &rows).is_none());
    // Representation limits.
    let mut bad = rows.clone();
    bad[0].close = Dec { mantissa: 1, scale: 29 };
    assert!(!outcome_inputs_valid(&e, &bad));
}

#[test]
fn outcome_of_huge_amounts() {
    // Prices and volumes between 2^90 and 2^96, which rust_decimal handles.
    let cfg = config_for("1m").unwrap();
    let e = sweep(SweepDirection::Bearish, "30000000000000000000000000000", "20000000000000000000000000000");
    let rows = vec![
        row(
            60_000,
            "20000000000000000000000000000",
            "21000000000000000000000000000",
            "10000000000000000000000000000",
            "12000000000000000000000000000",
            "40000000000000000000000000000",
        ),
        row(
            120_000,
            "12000000000000000000000000000",
            "13000000000000000000000000000",
            "11000000000000000000000000000",
            "11500000000000000000000000000",
            "30000000000000000000000000000",
        ),
    ];
    let r = resolve_outcome_checked(&e, &cfg, &rows).unwrap().unwrap();
    assert_eq!(format!("{:?}", r), format!("{:?}", resolve_outcome(&e, &cfg, &rows).unwrap()));
    assert_eq!(r.0, OutcomeKind::ReversalFollowed);
    assert_eq!(magnitude(&r.1), dec("0.5"));
}

#[test]
fn guard_acceleration_checks() {
    let cfg = config_for("1m").unwrap();
    let e = sweep(SweepDirection::Bearish, "101", "100");
    let n = cfg.cascade_sustain_candles;
    let mut rows = Vec::new();
    for i in 0..n {
        rows.push(row(60_000 * (i as i64 + 1), "100", "100.5", "98", "99", "2"));
    }
    let s = cascade_successor_checked(&e, &cfg, &rows).unwrap().unwrap();
    assert_eq!(value(s.volume_acceleration.unwrap()), dec("1"));
    // A quotient far beyond 2^96 overflows.
    rows[0].volume = d("0.0000000000000000000000000001");
    rows[n - 1].volume = d("1000000000");
    assert!(cascade_successor_checked(&e, &cfg, &rows).is_none());
    // Beyond 2^90 but within 2^96, it is computed.
    rows[0].volume = d("0.1");
    rows[n - 1].volume = d("5000000000000000000000000000");
    let s = cascade_successor_checked(&e, &cfg, &rows).unwrap().unwrap();
    assert_eq!(value(s.volume_acceleration.unwrap()), dec("50000000000000000000000000000"));
    rows[0].volume = d("0");
    assert!(cascade_successor_checked(&e, &cfg, &rows).unwrap().is_some());
    // A window that does not reclassify needs no division.
    let bullish = sweep(SweepDirection::Bullish, "99", "100");
    assert!(matches!(cascade_successor_checked(&bullish, &cfg, &rows), Some(None)));
}
