//! One detection pipeline per coin and interval: trades become candles,
//! completed candles run through the swing, sweep and cascade detectors,
//! and detections become market events annotated with higher-timeframe
//! levels nearby. The caller receives trades, stores and broadcasts the
//! events, and reads the higher-timeframe candles.

use vstd::prelude::*;
use crate::decimal::{
    Dec, dec_lt, dec_le, dec_sub, dec_div, dec_mul, one_units, moderate_limit, abs,
    max_scale, pow10, quotient_of, mul_exact, lemma_pow10_values, lemma_pow10_add,
    lemma_pow10_positive, difference_of, ratio_defined, ratio_computes, dec_ratio,
};
use crate::db::trades::OhlcvRow;
use crate::detection::candle_builder::{Candle, CandleBuilder, builder_step, takes};
use crate::detection::cascade_detector::{CascadeDetector, RawCascade, cascade_step, liq_fits, cascade_computes};
use crate::detection::interval_config::{IntervalConfig, all_configs, config_table};
use crate::detection::sweep_detector::{SweepDetector, RawSweep, sweep_step, sweep_computes};
use crate::detection::swing_detector::{
    SwingDetector, SwingKind, swing_step, swing_new_levels, levels_ok,
};
use crate::detection::types::{EventLifecycle, EventSource, HtfLevel, MarketEvent};
use crate::ingester::parser::Trade;
use crate::text::text_eq;

verus! {

// ─── higher-timeframe confluence ────────────────────────────────────────────

/// The table rows of longer intervals than `ms`, in table order.
pub open spec fn longer_than(s: Seq<IntervalConfig>, ms: i64) -> Seq<IntervalConfig>
    decreases s.len(),
{
    if s.len() == 0 {
        seq![]
    } else {
        let prev = longer_than(s.drop_last(), ms);
        if s.last().interval_ms > ms {
            prev.push(s.last())
        } else {
            prev
        }
    }
}

/// The supported intervals longer than the current one.
pub fn higher_configs(current: &IntervalConfig) -> (r: Vec<IntervalConfig>)
    ensures
        r@ == longer_than(config_table(), current.interval_ms),
{
    let all = all_configs();
    let mut r: Vec<IntervalConfig> = Vec::new();
    let mut i: usize = 0;
    while i < all.len()
        invariant
            0 <= i <= all@.len(),
            all@ == config_table(),
            r@ == longer_than(all@.take(i as int), current.interval_ms),
        decreases all@.len() - i,
    {
        assert(all@.take(i + 1).drop_last() =~= all@.take(i as int));
        if all[i].interval_ms > current.interval_ms {
            r.push(all[i]);
        }
        i = i + 1;
    }
    assert(all@.take(all@.len() as int) =~= all@);
    r
}

/// How close a higher-timeframe level must be: five times the minimum wick
/// fraction.
pub fn proximity_frac(cfg: &IntervalConfig) -> (r: Dec)
    requires
        cfg.wf(),
    ensures
        r.wf(),
        r@ == 5 * cfg.wick_min_frac@,
{
    let w = cfg.wick_min_frac;
    let five = Dec::new(5, 0);
    proof {
        lemma_pow10_values();
        lemma_pow10_add(w.scale as nat, (28 - w.scale) as nat);
        lemma_pow10_positive(w.scale as nat);
        lemma_pow10_positive((28 - w.scale) as nat);
        crate::decimal::lemma_pow10_monotone(w.scale as nat, 10);
        reveal_with_fuel(pow10, 11);
        let p = pow10(w.scale as nat);
        let q = pow10((28 - w.scale) as nat);
        let m = w.mantissa as int;
        assert(five@ == 5 * one_units()) by {
            reveal_with_fuel(pow10, 29);
        }
        // The mantissa is at most 10^15 * 10^scale <= 10^25 in magnitude.
        assert(abs(m) <= 1_000_000_000_000_000int * p) by (nonlinear_arith)
            requires
                abs(m * q) <= 10000000000000000000000000000000000000000000int,
                p * q == 10000000000000000000000000000int,
                q > 0,
                p > 0,
        ;
        assert(abs(m * 5) <= crate::decimal::MAX_MANTISSA) by (nonlinear_arith)
            requires
                abs(m) <= 1_000_000_000_000_000int * p,
                p <= 10_000_000_000int,
        ;
        assert(mul_exact(w, five));
    }
    let r = dec_mul(&w, &five);
    proof {
        assert(r@ * one_units() == (5 * w@) * one_units()) by (nonlinear_arith)
            requires
                r@ * one_units() == w@ * five@,
                five@ == 5 * one_units(),
        ;
        assert(r@ == 5 * w@) by (nonlinear_arith)
            requires
                r@ * one_units() == (5 * w@) * one_units(),
                one_units() > 0,
        ;
    }
    r
}

/// Start of the higher-timeframe candles examined: enough candles before
/// the event's candle for that timeframe's swing window.
pub fn htf_window_start(candle_ts_ms: i64, htf_cfg: &IntervalConfig) -> (r: i64)
    requires
        htf_cfg.wf(),
        (htf_cfg.swing_lookback * 2 + 2) * htf_cfg.interval_ms <= i64::MAX,
        i64::MIN <= candle_ts_ms - (htf_cfg.swing_lookback * 2 + 2) * htf_cfg.interval_ms,
    ensures
        r == candle_ts_ms - (htf_cfg.swing_lookback * 2 + 2) * htf_cfg.interval_ms,
{
    proof {
        assert((htf_cfg.swing_lookback * 2 + 2) * htf_cfg.interval_ms >= 0) by (nonlinear_arith)
            requires
                htf_cfg.interval_ms > 0,
        ;
    }
    let bars = (htf_cfg.swing_lookback * 2 + 2) as i64;
    candle_ts_ms - bars * htf_cfg.interval_ms
}

/// Fractional distance of `x` from the positive price `p`, as
/// `rust_decimal` subtracts and divides.
pub open spec fn distance(p: Dec, x: Dec) -> int {
    if x@ > p@ {
        quotient_of(difference_of(x, p), p)@
    } else {
        quotient_of(difference_of(p, x), p)@
    }
}

/// The distance of `x` from `p` can be computed: neither the difference
/// nor the quotient overflows and `p` is not zero (`rust_decimal` panics
/// otherwise).
pub open spec fn distance_fits(p: Dec, x: Dec) -> bool {
    &&& x.wf()
    &&& if x@ > p@ {
        ratio_defined(x, p, p)
    } else {
        ratio_defined(p, x, p)
    }
}

/// Both extremes of the row lie at a computable distance from `price`.
pub open spec fn htf_row_fits(price: Dec, r: OhlcvRow) -> bool {
    distance_fits(price, r.high) && distance_fits(price, r.low)
}

/// Whether both extremes of the row lie at a computable distance from
/// `price`.
pub fn htf_row_checked(price: &Dec, row: &OhlcvRow) -> (r: bool)
    requires
        price.wf(),
    ensures
        r == htf_row_fits(*price, *row),
{
    if !(row.high.is_wf() && row.low.is_wf()) {
        return false;
    }
    let high_ok = if dec_lt(price, &row.high) {
        ratio_computes(&row.high, price, price)
    } else {
        ratio_computes(price, &row.high, price)
    };
    let low_ok = if dec_lt(price, &row.low) {
        ratio_computes(&row.low, price, price)
    } else {
        ratio_computes(price, &row.low, price)
    };
    high_ok && low_ok
}

/// Levels within `prox` of `price` among the first `n` rows: a row's high
/// if it is close enough, else its low if that is, each with its age in
/// candles counted back from the end of the rows.
pub open spec fn near_levels(rows: Seq<OhlcvRow>, n: int, price: Dec, prox: int) -> Seq<(Dec, int)>
    decreases n,
{
    if n <= 0 {
        seq![]
    } else {
        let prev = near_levels(rows, n - 1, price, prox);
        let c = rows[n - 1];
        let age = rows.len() - (n - 1);
        if distance(price, c.high) <= prox {
            prev.push((c.high, age))
        } else if distance(price, c.low) <= prox {
            prev.push((c.low, age))
        } else {
            prev
        }
    }
}

/// `(hi - lo) / p`.
fn dist(hi: &Dec, lo: &Dec, p: &Dec) -> (r: Dec)
    requires
        hi.wf(),
        lo.wf(),
        p.wf(),
        ratio_defined(*hi, *lo, *p),
    ensures
        r.wf(),
        r == quotient_of(difference_of(*hi, *lo), *p),
{
    dec_ratio(hi, lo, p)
}

/// The levels of one higher timeframe near `price`: for each of its
/// candles, the high if it lies within `proximity` of the price, else the
/// low if that does.
pub fn htf_levels(price: &Dec, htf_cfg: &IntervalConfig, proximity: &Dec, candles: &[OhlcvRow]) -> (r:
    Vec<HtfLevel>)
    requires
        price.wf(),
        proximity.wf(),
        forall|i: int| 0 <= i < candles@.len() ==> htf_row_fits(*price, #[trigger] candles@[i]),
    ensures
        ({
            let near = near_levels(candles@, candles@.len() as int, *price, proximity@);
            &&& r@.len() == near.len()
            &&& forall|k: int| 0 <= k < near.len() ==> {
                &&& (#[trigger] r@[k]).interval@ == htf_cfg.label@
                &&& r@[k].level_price == near[k].0
                &&& r@[k].age_candles == near[k].1
            }
        }),
{
    let mut result: Vec<HtfLevel> = Vec::new();
    let mut i: usize = 0;
    while i < candles.len()
        invariant
            0 <= i <= candles@.len(),
            price.wf(),
            proximity.wf(),
            forall|k: int| 0 <= k < candles@.len() ==> htf_row_fits(*price, #[trigger] candles@[k]),
            ({
                let near = near_levels(candles@, i as int, *price, proximity@);
                &&& result@.len() == near.len()
                &&& forall|k: int| 0 <= k < near.len() ==> {
                    &&& (#[trigger] result@[k]).interval@ == htf_cfg.label@
                    &&& result@[k].level_price == near[k].0
                    &&& result@[k].age_candles == near[k].1
                }
            }),
        decreases candles@.len() - i,
    {
        let c = candles[i];
        assert(htf_row_fits(*price, candles@[i as int]));
        let age = candles.len() - i;
        let high_dist = if dec_lt(price, &c.high) {
            dist(&c.high, price, price)
        } else {
            dist(price, &c.high, price)
        };
        let low_dist = if dec_lt(price, &c.low) {
            dist(&c.low, price, price)
        } else {
            dist(price, &c.low, price)
        };
        let ghost before = result@;
        if dec_le(&high_dist, proximity) {
            result.push(HtfLevel { interval: htf_cfg.label.to_owned(), level_price: c.high, age_candles: age });
        } else if dec_le(&low_dist, proximity) {
            result.push(HtfLevel { interval: htf_cfg.label.to_owned(), level_price: c.low, age_candles: age });
        }
        proof {
            let near = near_levels(candles@, i + 1, *price, proximity@);
            assert forall|k: int| 0 <= k < near.len() implies {
                &&& (#[trigger] result@[k]).interval@ == htf_cfg.label@
                &&& result@[k].level_price == near[k].0
                &&& result@[k].age_candles == near[k].1
            } by {
                if k < before.len() {
                    assert(result@[k] == before[k]);
                }
            }
        }
        i = i + 1;
    }
    result
}

// ─── events ─────────────────────────────────────────────────────────────────

/// The lifecycle an event is stored with: live events enter observation,
/// replayed events are confirmed at once.
pub open spec fn stored_lifecycle(source: EventSource) -> EventLifecycle {
    match source {
        EventSource::Live => EventLifecycle::Confirming,
        EventSource::Backfill => EventLifecycle::Confirmed,
    }
}

/// The market event for a detected sweep, annotated with its
/// higher-timeframe levels.
pub fn sweep_event(coin: &String, cfg: &IntervalConfig, raw: &RawSweep, htf: Vec<HtfLevel>, source: EventSource) -> (e:
    MarketEvent)
    ensures
        e.id is None,
        e.coin == *coin,
        e.interval@ == cfg.label@,
        e.event_type == crate::detection::types::EventType::LiquiditySweep,
        e.lifecycle == stored_lifecycle(source),
        e.source == source,
        e.sweep_direction == Some(raw.direction),
        e.level_price == Some(raw.level_price),
        e.sweep_extreme == Some(raw.sweep_extreme),
        e.wick_pct == Some(raw.wick_pct),
        e.close_price == Some(raw.close_price),
        e.cascade_direction is None,
        e.cascade_start_price is None,
        e.liq_count_total is None,
        e.candles_sustained is None,
        e.volume_acceleration is None,
        e.event_ts_ms == raw.candle_ts_ms,
        e.candle_volume == raw.candle_volume,
        e.htf_confluence@ == htf@,
        e.outcome == crate::detection::types::OutcomeKind::Pending,
        e.outcome_detail is None,
        e.outcome_resolved_ts is None,
        e.regime is None,
        e.reclassified_from is None,
{
    let mut event = MarketEvent::new_sweep(
        coin.clone(),
        cfg.label.to_owned(),
        raw.direction,
        raw.level_price,
        raw.sweep_extreme,
        raw.wick_pct,
        raw.close_price,
        raw.candle_volume,
        raw.candle_ts_ms,
    );
    event.htf_confluence = htf;
    event.source = source;
    event.lifecycle = match source {
        EventSource::Live => EventLifecycle::Confirming,
        EventSource::Backfill => EventLifecycle::Confirmed,
    };
    event
}

/// The market event for a detected cascade, recording the volume of the
/// candle that completed it.
pub fn cascade_event(coin: &String, cfg: &IntervalConfig, raw: &RawCascade, candle_volume: Dec, source: EventSource) -> (e:
    MarketEvent)
    ensures
        e.id is None,
        e.coin == *coin,
        e.interval@ == cfg.label@,
        e.event_type == crate::detection::types::EventType::LiquidationCascade,
        e.lifecycle == stored_lifecycle(source),
        e.source == source,
        e.sweep_direction is None,
        e.level_price is None,
        e.sweep_extreme is None,
        e.wick_pct is None,
        e.close_price is None,
        e.cascade_direction == Some(raw.direction),
        e.cascade_start_price == Some(raw.start_price),
        e.liq_count_total == Some(raw.liq_count_total as i32),
        e.candles_sustained == Some(raw.candles_sustained as i32),
        e.volume_acceleration == Some(raw.volume_acceleration),
        e.event_ts_ms == raw.start_ts_ms,
        e.candle_volume == candle_volume,
        e.htf_confluence@.len() == 0,
        e.outcome == crate::detection::types::OutcomeKind::Pending,
        e.outcome_detail is None,
        e.outcome_resolved_ts is None,
        e.regime is None,
        e.reclassified_from is None,
{
    let mut event = MarketEvent::new_cascade(
        coin.clone(),
        cfg.label.to_owned(),
        raw.direction,
        raw.start_price,
        raw.liq_count_total as i32,
        raw.candles_sustained as i32,
        raw.volume_acceleration,
        candle_volume,
        raw.start_ts_ms,
    );
    event.source = source;
    event.lifecycle = match source {
        EventSource::Live => EventLifecycle::Confirming,
        EventSource::Backfill => EventLifecycle::Confirmed,
    };
    event
}

// ─── the per-candle step ────────────────────────────────────────────────────

/// What one completed candle produced.
#[derive(Debug)]
pub struct CandleDetections {
    pub candle: Candle,
    pub sweeps: Vec<RawSweep>,
    pub cascade: Option<RawCascade>,
}

/// The swing, sweep and cascade detectors of one interval, fed candle by
/// candle.
pub struct Detectors {
    swing: SwingDetector,
    sweep: SweepDetector,
    cascade: CascadeDetector,
    /// Set once a candle made a `rust_decimal` operation overflow.
    halted: bool,
}

/// One candle through the detectors. Halted detectors, or a candle with an
/// invalid decimal, change nothing and detect nothing. Otherwise the candle
/// updates the swing levels; if every `rust_decimal` operation of the sweep
/// check against the updated levels and of the cascade step is defined, it
/// is checked for sweeps and feeds the cascade detector (unless the
/// liquidations it would total for the window exceed `u32::MAX`); if one
/// would overflow, the detectors halt and detect nothing, as the detection
/// stops there.
pub open spec fn detectors_step(
    before: Detectors,
    after: Detectors,
    candle: Candle,
    sweeps: Seq<RawSweep>,
    cascade: Option<RawCascade>,
) -> bool {
    if before.halted() || !candle.wf() {
        &&& sweeps.len() == 0
        &&& cascade is None
        &&& after == before
    } else {
        &&& swing_step(before.swing(), after.swing(), candle, swing_new_levels(before.swing(), after.swing()))
        &&& if detections_compute(before, after, candle) {
            &&& !after.halted()
            &&& sweep_step(before.sweep(), after.sweep(), candle, after.swing().highs(), after.swing().lows(), sweeps)
            &&& if liq_fits(before.cascade(), candle) {
                cascade_step(before.cascade(), after.cascade(), candle, cascade)
            } else {
                cascade is None && after.cascade() == before.cascade()
            }
        } else {
            &&& after.halted()
            &&& sweeps.len() == 0
            &&& cascade is None
        }
    }
}

/// Every `rust_decimal` operation of the sweep check against the updated
/// levels and of the cascade step that the candle would run is defined.
pub open spec fn detections_compute(before: Detectors, after: Detectors, candle: Candle) -> bool {
    &&& sweep_computes(before.sweep(), candle, after.swing().highs(), after.swing().lows())
    &&& liq_fits(before.cascade(), candle) ==> cascade_computes(before.cascade(), candle)
}

impl Detectors {
    pub closed spec fn swing(&self) -> SwingDetector {
        self.swing
    }

    pub closed spec fn sweep(&self) -> SweepDetector {
        self.sweep
    }

    pub closed spec fn cascade(&self) -> CascadeDetector {
        self.cascade
    }

    pub closed spec fn halted(&self) -> bool {
        self.halted
    }

    pub closed spec fn wf(&self) -> bool {
        !self.halted ==> {
            &&& self.swing.wf()
            &&& self.sweep.wf()
            &&& self.cascade.wf()
        }
    }

    /// Detectors that have seen no candle, with the parameters of `cfg`.
    pub open spec fn fresh_for(&self, cfg: IntervalConfig) -> bool {
        &&& self.swing().lookback() == cfg.swing_lookback
        &&& self.swing().expiry() == cfg.level_expiry_candles
        &&& self.swing().history().len() == 0
        &&& self.swing().highs().len() == 0
        &&& self.swing().lows().len() == 0
        &&& self.sweep().min_wick() == cfg.wick_min_frac
        &&& self.sweep().multiplier() == cfg.volume_spike_multiplier
        &&& self.sweep().capacity() == cfg.volume_baseline_candles
        &&& self.sweep().volumes().len() == 0
        &&& self.cascade().sustain() == cfg.cascade_sustain_candles
        &&& self.cascade().multiplier() == cfg.volume_spike_multiplier
        &&& self.cascade().capacity() == cfg.volume_baseline_candles
        &&& self.cascade().candles().len() == 0
        &&& self.cascade().volumes().len() == 0
        &&& self.cascade().last_reported() is None
        &&& !self.halted()
    }

    pub fn new(cfg: &IntervalConfig) -> (d: Self)
        requires
            cfg.wf(),
        ensures
            d.wf(),
            d.fresh_for(*cfg),
    {
        Detectors {
            swing: SwingDetector::new(cfg),
            sweep: SweepDetector::new(cfg),
            cascade: CascadeDetector::new(cfg),
            halted: false,
        }
    }

    /// Feeds one completed candle; returns the sweeps and the cascade it
    /// produced.
    pub fn push(&mut self, candle: Candle) -> (r: (Vec<RawSweep>, Option<RawCascade>))
        requires
            old(self).wf(),
        ensures
            final(self).wf(),
            detectors_step(*old(self), *final(self), candle, r.0@, r.1),
    {
        if self.halted || !candle.is_wf() {
            return (Vec::new(), None);
        }
        let _levels = self.swing.push(candle);
        let cascade_fits = self.cascade.liquidations_fit(&candle);
        if !self.sweep.computes(&candle, self.swing.live_highs.as_slice(), self.swing.live_lows.as_slice()) {
            self.halted = true;
            return (Vec::new(), None);
        }
        let sweeps = self.sweep.push(&candle, self.swing.live_highs.as_slice(), self.swing.live_lows.as_slice());
        let cascade = if cascade_fits {
            match self.cascade.push(candle) {
                Some(c) => c,
                None => {
                    self.halted = true;
                    return (Vec::new(), None);
                },
            }
        } else {
            None
        };
        (sweeps, cascade)
    }
}

/// Trades of one coin turned into candles and detections for one interval.
pub struct DetectionPipeline {
    coin: String,
    cfg: IntervalConfig,
    builder: CandleBuilder,
    detectors: Detectors,
}

impl DetectionPipeline {
    pub closed spec fn coin(&self) -> String {
        self.coin
    }

    pub closed spec fn config(&self) -> IntervalConfig {
        self.cfg
    }

    pub closed spec fn builder(&self) -> CandleBuilder {
        self.builder
    }

    pub closed spec fn detectors(&self) -> Detectors {
        self.detectors
    }

    pub closed spec fn wf(&self) -> bool {
        &&& self.cfg.wf()
        &&& self.builder.wf()
        &&& self.builder.interval() == self.cfg.interval_ms
        &&& self.detectors.wf()
    }

    pub fn new(coin: String, cfg: IntervalConfig) -> (p: Self)
        requires
            cfg.wf(),
        ensures
            p.wf(),
            p.coin() == coin,
            p.config() == cfg,
            p.builder().bucket() is None,
            p.detectors().fresh_for(cfg),
    {
        DetectionPipeline {
            coin,
            cfg,
            builder: CandleBuilder::new(cfg.interval_ms),
            detectors: Detectors::new(&cfg),
        }
    }

    /// Feeds one trade from the stream. Trades of other coins are ignored.
    /// A trade of the coin that the candle builder cannot take (see
    /// `CandleBuilder::accepts`: its size would overflow the candle's
    /// volume) halts the detectors, as detection stops there. A trade that
    /// completes a candle runs that candle through the detectors, and the
    /// candle with its detections is returned.
    pub fn on_trade(&mut self, trade: &Trade) -> (r: Option<CandleDetections>)
        requires
            old(self).wf(),
            trade.wf(),
        ensures
            final(self).wf(),
            final(self).coin() == old(self).coin(),
            final(self).config() == old(self).config(),
            trade.coin@ != old(self).coin()@ ==> {
                &&& r is None
                &&& final(self).builder() == old(self).builder()
                &&& final(self).detectors() == old(self).detectors()
            },
            trade.coin@ == old(self).coin()@ && !takes(old(self).builder(), *trade) ==> {
                &&& r is None
                &&& final(self).builder() == old(self).builder()
                &&& final(self).detectors().halted()
            },
            trade.coin@ == old(self).coin()@ && takes(old(self).builder(), *trade) ==> {
                &&& builder_step(
                    old(self).builder(),
                    final(self).builder(),
                    *trade,
                    match r {
                        Some(d) => Some(d.candle),
                        None => None,
                    },
                )
                &&& r is None ==> final(self).detectors() == old(self).detectors()
                &&& r matches Some(d) ==> detectors_step(
                    old(self).detectors(),
                    final(self).detectors(),
                    d.candle,
                    d.sweeps@,
                    d.cascade,
                )
            },
    {
        if !text_eq(trade.coin.as_str(), self.coin.as_str()) {
            return None;
        }
        if !self.builder.accepts(trade) {
            self.detectors.halted = true;
            return None;
        }
        match self.builder.push(trade) {
            None => None,
            Some(candle) => {
                let (sweeps, cascade) = self.detectors.push(candle);
                Some(CandleDetections { candle, sweeps, cascade })
            },
        }
    }
}

} // verus!
