//! Market events and their vocabulary: what was detected, where it stands
//! in its lifecycle and what followed it.

use vstd::prelude::*;
use crate::decimal::Dec;

verus! {

#[derive(Clone, Copy, Debug, PartialEq, Eq, Structural)]
pub enum EventType {
    LiquiditySweep,
    LiquidationCascade,
}

/// Lifecycle of every market event.
///
/// Detected: raw detection fired, not yet confirmed.
/// Confirming: the event is in its observation window.
/// Confirmed: the window closed and the outcome was written.
/// Reclassified: the event changed identity (a sweep became a cascade);
/// a successor event points back to it.
/// Expired: the window closed without enough data for an outcome.
#[derive(Clone, Copy, Debug, PartialEq, Eq, Structural)]
pub enum EventLifecycle {
    Detected,
    Confirming,
    Confirmed,
    Reclassified,
    Expired,
}

/// What was observed after an event.
#[derive(Clone, Copy, Debug, PartialEq, Eq, Structural)]
pub enum OutcomeKind {
    Pending,
    ReversalFollowed,
    ContinuationFollowed,
    ExhaustionDetected,
    AbsorptionDetected,
    ExpectationFailed,
    ReclaimAnomaly,
}

#[derive(Clone, Copy, Debug, PartialEq, Eq, Structural)]
pub enum SweepDirection {
    /// Price wicked below a swing low and closed back above it.
    Bullish,
    /// Price wicked above a swing high and closed back below it.
    Bearish,
}

#[derive(Clone, Copy, Debug, PartialEq, Eq, Structural)]
pub enum CascadeDirection {
    /// Price falling; long positions being liquidated.
    LongLiq,
    /// Price rising; short positions being liquidated.
    ShortLiq,
}

/// Context tag attached to events for later filtering.
#[derive(Clone, Copy, Debug, PartialEq, Eq, Structural)]
pub enum MarketRegime {
    Trend,
    Range,
    VolatilityExpansion,
    VolatilityCompression,
    MomentumAcceleration,
    Chop,
    Unknown,
}

/// Whether an event came from the live stream or a historical replay.
#[derive(Clone, Copy, Debug, PartialEq, Eq, Structural)]
pub enum EventSource {
    Live,
    Backfill,
}

/// A higher-timeframe swing level near an event's price.
#[derive(Clone, Debug)]
pub struct HtfLevel {
    pub interval: String,
    pub level_price: Dec,
    /// How many candles of that timeframe ago the level was formed.
    pub age_candles: usize,
}

/// Empirical detail recorded when the observation window closes.
#[derive(Clone, Debug)]
pub struct OutcomeDetail {
    /// Fractional move from the reference price in the outcome direction.
    pub magnitude_pct: Option<Dec>,
    /// Milliseconds from the event to its maximum extension.
    pub duration_ms: Option<i64>,
    /// Price of the maximum extension.
    pub max_extension: Option<Dec>,
    /// Note for failure or anomaly outcomes.
    pub failure_note: Option<String>,
}

/// The event that flows through detection, storage and broadcast.
#[derive(Clone, Debug)]
pub struct MarketEvent {
    /// None before it is stored; Some after.
    pub id: Option<i64>,
    pub coin: String,
    pub interval: String,
    pub event_type: EventType,
    pub lifecycle: EventLifecycle,
    pub source: EventSource,
    pub sweep_direction: Option<SweepDirection>,
    /// The swing level price that was pierced.
    pub level_price: Option<Dec>,
    /// Wick tip: the furthest point price reached past the level.
    pub sweep_extreme: Option<Dec>,
    /// Fractional distance the wick extended past the level.
    pub wick_pct: Option<Dec>,
    /// Close of the triggering candle.
    pub close_price: Option<Dec>,
    pub cascade_direction: Option<CascadeDirection>,
    pub cascade_start_price: Option<Dec>,
    pub liq_count_total: Option<i32>,
    pub candles_sustained: Option<i32>,
    /// Volume of the last cascade candle divided by that of the first.
    pub volume_acceleration: Option<Dec>,
    /// Open time of the triggering candle.
    pub event_ts_ms: i64,
    pub candle_volume: Dec,
    pub htf_confluence: Vec<HtfLevel>,
    pub outcome: OutcomeKind,
    pub outcome_detail: Option<OutcomeDetail>,
    pub outcome_resolved_ts: Option<i64>,
    pub regime: Option<MarketRegime>,
    /// Id of the event this one was reclassified from.
    pub reclassified_from: Option<i64>,
}

impl MarketEvent {
    /// A freshly detected event: not stored, live, no confluence, outcome
    /// pending, no regime, not reclassified.
    pub open spec fn is_fresh(&self) -> bool {
        &&& self.id is None
        &&& self.lifecycle == EventLifecycle::Detected
        &&& self.source == EventSource::Live
        &&& self.htf_confluence@.len() == 0
        &&& self.outcome == OutcomeKind::Pending
        &&& self.outcome_detail is None
        &&& self.outcome_resolved_ts is None
        &&& self.regime is None
        &&& self.reclassified_from is None
    }

    /// A new liquidity sweep event in the Detected state.
    pub fn new_sweep(
        coin: String,
        interval: String,
        direction: SweepDirection,
        level_price: Dec,
        sweep_extreme: Dec,
        wick_pct: Dec,
        close_price: Dec,
        candle_volume: Dec,
        event_ts_ms: i64,
    ) -> (e: Self)
        ensures
            e.is_fresh(),
            e.coin == coin,
            e.interval == interval,
            e.event_type == EventType::LiquiditySweep,
            e.sweep_direction == Some(direction),
            e.level_price == Some(level_price),
            e.sweep_extreme == Some(sweep_extreme),
            e.wick_pct == Some(wick_pct),
            e.close_price == Some(close_price),
            e.cascade_direction is None,
            e.cascade_start_price is None,
            e.liq_count_total is None,
            e.candles_sustained is None,
            e.volume_acceleration is None,
            e.event_ts_ms == event_ts_ms,
            e.candle_volume == candle_volume,
    {
        MarketEvent {
            id: None,
            coin,
            interval,
            event_type: EventType::LiquiditySweep,
            lifecycle: EventLifecycle::Detected,
            source: EventSource::Live,
            sweep_direction: Some(direction),
            level_price: Some(level_price),
            sweep_extreme: Some(sweep_extreme),
            wick_pct: Some(wick_pct),
            close_price: Some(close_price),
            cascade_direction: None,
            cascade_start_price: None,
            liq_count_total: None,
            candles_sustained: None,
            volume_acceleration: None,
            event_ts_ms,
            candle_volume,
            htf_confluence: Vec::new(),
            outcome: OutcomeKind::Pending,
            outcome_detail: None,
            outcome_resolved_ts: None,
            regime: None,
            reclassified_from: None,
        }
    }

    /// A new liquidation cascade event in the Detected state.
    pub fn new_cascade(
        coin: String,
        interval: String,
        direction: CascadeDirection,
        start_price: Dec,
        liq_count_total: i32,
        candles_sustained: i32,
        volume_acceleration: Dec,
        candle_volume: Dec,
        event_ts_ms: i64,
    ) -> (e: Self)
        ensures
            e.is_fresh(),
            e.coin == coin,
            e.interval == interval,
            e.event_type == EventType::LiquidationCascade,
            e.sweep_direction is None,
            e.level_price is None,
            e.sweep_extreme is None,
            e.wick_pct is None,
            e.close_price is None,
            e.cascade_direction == Some(direction),
            e.cascade_start_price == Some(start_price),
            e.liq_count_total == Some(liq_count_total),
            e.candles_sustained == Some(candles_sustained),
            e.volume_acceleration == Some(volume_acceleration),
            e.event_ts_ms == event_ts_ms,
            e.candle_volume == candle_volume,
    {
        MarketEvent {
            id: None,
            coin,
            interval,
            event_type: EventType::LiquidationCascade,
            lifecycle: EventLifecycle::Detected,
            source: EventSource::Live,
            sweep_direction: None,
            level_price: None,
            sweep_extreme: None,
            wick_pct: None,
            close_price: None,
            cascade_direction: Some(direction),
            cascade_start_price: Some(start_price),
            liq_count_total: Some(liq_count_total),
            candles_sustained: Some(candles_sustained),
            volume_acceleration: Some(volume_acceleration),
            event_ts_ms,
            candle_volume,
            htf_confluence: Vec::new(),
            outcome: OutcomeKind::Pending,
            outcome_detail: None,
            outcome_resolved_ts: None,
            regime: None,
            reclassified_from: None,
        }
    }
}

} // verus!
