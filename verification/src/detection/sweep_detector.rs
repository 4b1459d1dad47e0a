//! Liquidity sweeps: a candle wicks past a live swing level by a minimum
//! fraction and closes back inside it.

use vstd::prelude::*;
use crate::decimal::{
    Dec, dec_lt, dec_le, dec_div, dec_mul, dec_sum, dec_ratio, quotient_of, count_dec, product_of,
    decs_total, decs_opt, difference_of, quotient_opt, product_opt, ratio_defined, ratio_computes,
    sum_from_then, checked_quotient, checked_product,
};
use crate::detection::candle_builder::Candle;
use crate::detection::interval_config::IntervalConfig;
use crate::detection::swing_detector::{SwingLevel, SwingKind, level_ok};
use crate::detection::types::SweepDirection;
use std::collections::VecDeque;

verus! {

/// One sweep of one swing level by one candle.
#[derive(Clone, Copy, Debug)]
pub struct RawSweep {
    pub direction: SweepDirection,
    /// The swing level that was pierced.
    pub level_price: Dec,
    /// Wick tip: the furthest point price reached past the level.
    pub sweep_extreme: Dec,
    /// Fractional distance the wick extended beyond the level.
    pub wick_pct: Dec,
    pub close_price: Dec,
    pub candle_volume: Dec,
    pub liq_count: u32,
    pub candle_ts_ms: i64,
    /// Whether the candle volume reached the rolling baseline spike threshold.
    pub volume_spike: bool,
    /// The level that was swept.
    pub swept_level: SwingLevel,
}

/// The rolling window after one more value: append, then drop the oldest
/// once the window holds more than `cap` values.
pub open spec fn rolled<T>(h: Seq<T>, v: T, cap: int) -> Seq<T> {
    let p = h.push(v);
    if p.len() > cap {
        p.subrange(1, p.len() as int)
    } else {
        p
    }
}

/// Average of the window as `rust_decimal` computes it (one when empty).
pub open spec fn baseline_dec(h: Seq<Dec>) -> Dec {
    if h.len() == 0 {
        Dec { mantissa: 1, scale: 0 }
    } else {
        quotient_of(decs_total(h), count_dec(h.len()))
    }
}

/// The value of the window's average.
pub open spec fn baseline(h: Seq<Dec>) -> int {
    baseline_dec(h)@
}

/// The volume reaches the baseline times the spike multiplier.
pub open spec fn is_spike(volume: Dec, avg: Dec, multiplier: Dec) -> bool {
    avg@ > 0 && volume@ >= product_of(avg, multiplier)@
}

/// How far the wick rose above a level, as a fraction of the level
/// (`rust_decimal`'s difference and quotient).
pub open spec fn wick_above(c: Candle, l: SwingLevel) -> int {
    quotient_of(difference_of(c.high, l.price), l.price)@
}

/// How far the wick fell below a level, as a fraction of the level
/// (`rust_decimal`'s difference and quotient).
pub open spec fn wick_below(c: Candle, l: SwingLevel) -> int {
    quotient_of(difference_of(l.price, c.low), l.price)@
}

/// The candle pierced the high, closed back below it, and the wick went
/// at least the minimum fraction past it.
pub open spec fn sweeps_high(c: Candle, l: SwingLevel, min: Dec) -> bool {
    &&& c.high@ > l.price@
    &&& c.close@ < l.price@
    &&& !(wick_above(c, l) < min@)
}

/// The candle pierced the low, closed back above it, and the wick went at
/// least the minimum fraction past it.
pub open spec fn sweeps_low(c: Candle, l: SwingLevel, min: Dec) -> bool {
    &&& c.low@ < l.price@
    &&& c.close@ > l.price@
    &&& !(wick_below(c, l) < min@)
}

/// The highs the candle sweeps, in order.
pub open spec fn swept_highs(c: Candle, ls: Seq<SwingLevel>, min: Dec) -> Seq<SwingLevel>
    decreases ls.len(),
{
    if ls.len() == 0 {
        seq![]
    } else {
        let prev = swept_highs(c, ls.drop_last(), min);
        if sweeps_high(c, ls.last(), min) {
            prev.push(ls.last())
        } else {
            prev
        }
    }
}

/// The lows the candle sweeps, in order.
pub open spec fn swept_lows(c: Candle, ls: Seq<SwingLevel>, min: Dec) -> Seq<SwingLevel>
    decreases ls.len(),
{
    if ls.len() == 0 {
        seq![]
    } else {
        let prev = swept_lows(c, ls.drop_last(), min);
        if sweeps_low(c, ls.last(), min) {
            prev.push(ls.last())
        } else {
            prev
        }
    }
}

/// `r` reports the sweep of level `l` by candle `c`.
pub open spec fn reports(r: RawSweep, c: Candle, l: SwingLevel, dir: SweepDirection, spike: bool) -> bool {
    &&& r.direction == dir
    &&& r.level_price == l.price
    &&& r.sweep_extreme == (if dir == SweepDirection::Bearish { c.high } else { c.low })
    &&& r.wick_pct.wf()
    &&& r.wick_pct == (if dir == SweepDirection::Bearish {
        quotient_of(difference_of(c.high, l.price), l.price)
    } else {
        quotient_of(difference_of(l.price, c.low), l.price)
    })
    &&& r.close_price == c.close
    &&& r.candle_volume == c.volume
    &&& r.liq_count == c.liq_count
    &&& r.candle_ts_ms == c.bucket_ms
    &&& r.volume_spike == spike
    &&& r.swept_level == l
}

/// Level prices are valid decimals.
pub open spec fn levels_valid(ls: Seq<SwingLevel>) -> bool {
    forall|i: int| 0 <= i < ls.len() ==> (#[trigger] ls[i]).price.wf()
}

/// Every `rust_decimal` operation of one candle through the detector is
/// defined (each would panic otherwise): the sum and the average of the
/// rolled volumes, that average times the multiplier when it is positive,
/// and the wick fraction of every level the candle pierced and closed back
/// inside.
pub open spec fn sweep_computes(d: SweepDetector, c: Candle, highs: Seq<SwingLevel>, lows: Seq<SwingLevel>) -> bool {
    let vols = rolled(d.volumes(), c.volume, d.capacity() as int);
    &&& decs_opt(vols) is Some
    &&& quotient_opt(decs_total(vols), count_dec(vols.len())) is Some
    &&& baseline_dec(vols)@ > 0 ==> product_opt(baseline_dec(vols), d.multiplier()) is Some
    &&& forall|i: int|
        0 <= i < highs.len() && c.high@ > (#[trigger] highs[i]).price@ && c.close@ < highs[i].price@
            ==> ratio_defined(c.high, highs[i].price, highs[i].price)
    &&& forall|i: int|
        0 <= i < lows.len() && c.low@ < (#[trigger] lows[i]).price@ && c.close@ > lows[i].price@
            ==> ratio_defined(lows[i].price, c.low, lows[i].price)
}

/// One candle through the detector: its volume joins the rolling
/// baseline, and `r` reports first each swing high the candle swept, then
/// each swing low, in the order given, all flagged with whether the volume
/// reached the baseline times the spike multiplier.
pub open spec fn sweep_step(
    before: SweepDetector,
    after: SweepDetector,
    candle: Candle,
    highs: Seq<SwingLevel>,
    lows: Seq<SwingLevel>,
    r: Seq<RawSweep>,
) -> bool {
    let spike = is_spike(candle.volume, baseline_dec(after.volumes()), before.multiplier());
    let sh = swept_highs(candle, highs, before.min_wick());
    let sl = swept_lows(candle, lows, before.min_wick());
    &&& after.min_wick() == before.min_wick()
    &&& after.multiplier() == before.multiplier()
    &&& after.capacity() == before.capacity()
    &&& after.volumes() == rolled(before.volumes(), candle.volume, before.capacity() as int)
    &&& r.len() == sh.len() + sl.len()
    &&& forall|k: int| 0 <= k < sh.len() ==>
        reports(#[trigger] r[k], candle, sh[k], SweepDirection::Bearish, spike)
    &&& forall|k: int| 0 <= k < sl.len() ==>
        reports(#[trigger] r[sh.len() + k], candle, sl[k], SweepDirection::Bullish, spike)
}

pub struct SweepDetector {
    wick_min_frac: Dec,
    volume_spike_multiplier: Dec,
    /// Recent candle volumes, for the baseline average.
    vol_history: VecDeque<Dec>,
    volume_baseline_candles: usize,
}

impl SweepDetector {
    pub closed spec fn min_wick(&self) -> Dec {
        self.wick_min_frac
    }

    pub closed spec fn multiplier(&self) -> Dec {
        self.volume_spike_multiplier
    }

    pub closed spec fn volumes(&self) -> Seq<Dec> {
        self.vol_history@
    }

    pub closed spec fn capacity(&self) -> usize {
        self.volume_baseline_candles
    }

    pub closed spec fn wf(&self) -> bool {
        &&& self.wick_min_frac.wf()
        &&& self.volume_spike_multiplier.wf()
        &&& 1 <= self.volume_baseline_candles <= 1000
        &&& self.vol_history@.len() <= self.volume_baseline_candles
        &&& forall|i: int| 0 <= i < self.vol_history@.len() ==> (#[trigger] self.vol_history@[i]).wf()
    }

    pub fn new(cfg: &IntervalConfig) -> (d: Self)
        requires
            cfg.wf(),
        ensures
            d.wf(),
            d.min_wick() == cfg.wick_min_frac,
            d.multiplier() == cfg.volume_spike_multiplier,
            d.capacity() == cfg.volume_baseline_candles,
            d.volumes().len() == 0,
    {
        SweepDetector {
            wick_min_frac: cfg.wick_min_frac,
            volume_spike_multiplier: cfg.volume_spike_multiplier,
            vol_history: VecDeque::with_capacity(cfg.volume_baseline_candles + 1),
            volume_baseline_candles: cfg.volume_baseline_candles,
        }
    }

    /// Whether every `rust_decimal` operation of `push` on this candle and
    /// these levels is defined.
    pub fn computes(&self, candle: &Candle, live_highs: &[SwingLevel], live_lows: &[SwingLevel]) -> (r: bool)
        requires
            self.wf(),
            candle.wf(),
            levels_valid(live_highs@),
            levels_valid(live_lows@),
        ensures
            r == sweep_computes(*self, *candle, live_highs@, live_lows@),
    {
        let len = self.vol_history.len();
        let from: usize = if len + 1 > self.volume_baseline_candles {
            1
        } else {
            0
        };
        let ghost vols = rolled(self.vol_history@, candle.volume, self.volume_baseline_candles as int);
        proof {
            let p = self.vol_history@.push(candle.volume);
            assert(vols =~= self.vol_history@.subrange(from as int, len as int).push(candle.volume)) by {
                if from == 1 {
                    assert(vols == p.subrange(1, p.len() as int));
                }
            }
        }
        let total = match sum_from_then(&self.vol_history, from, &candle.volume) {
            Some(t) => t,
            None => {
                return false;
            },
        };
        let avg = match checked_quotient(&total, &Dec::from_usize(len + 1 - from)) {
            Some(a) => a,
            None => {
                return false;
            },
        };
        assert(avg == baseline_dec(vols));
        if dec_lt(&Dec::zero(), &avg) && checked_product(&avg, &self.volume_spike_multiplier).is_none() {
            return false;
        }
        let mut i: usize = 0;
        while i < live_highs.len()
            invariant
                0 <= i <= live_highs@.len(),
                candle.wf(),
                levels_valid(live_highs@),
                forall|k: int|
                    0 <= k < i && candle.high@ > (#[trigger] live_highs@[k]).price@ && candle.close@
                        < live_highs@[k].price@ ==> ratio_defined(candle.high, live_highs@[k].price, live_highs@[k].price),
            decreases live_highs@.len() - i,
        {
            let level = live_highs[i];
            if dec_lt(&level.price, &candle.high) && dec_lt(&candle.close, &level.price) && !ratio_computes(
                &candle.high,
                &level.price,
                &level.price,
            ) {
                return false;
            }
            i = i + 1;
        }
        let mut j: usize = 0;
        while j < live_lows.len()
            invariant
                0 <= j <= live_lows@.len(),
                candle.wf(),
                levels_valid(live_lows@),
                forall|k: int|
                    0 <= k < j && candle.low@ < (#[trigger] live_lows@[k]).price@ && candle.close@
                        > live_lows@[k].price@ ==> ratio_defined(live_lows@[k].price, candle.low, live_lows@[k].price),
            decreases live_lows@.len() - j,
        {
            let level = live_lows[j];
            if dec_lt(&candle.low, &level.price) && dec_lt(&level.price, &candle.close) && !ratio_computes(
                &level.price,
                &candle.low,
                &level.price,
            ) {
                return false;
            }
            j = j + 1;
        }
        true
    }

    /// Evaluates a closed candle against the live swing levels. A level is
    /// swept when the wick extends past it by at least the minimum fraction
    /// and the close is back inside it. The candle's own volume is part of
    /// the baseline it is compared with.
    pub fn push(&mut self, candle: &Candle, live_highs: &[SwingLevel], live_lows: &[SwingLevel]) -> (r:
        Vec<RawSweep>)
        requires
            old(self).wf(),
            candle.wf(),
            levels_valid(live_highs@),
            levels_valid(live_lows@),
            sweep_computes(*old(self), *candle, live_highs@, live_lows@),
        ensures
            final(self).wf(),
            sweep_step(*old(self), *final(self), *candle, live_highs@, live_lows@, r@),
    {
        self.vol_history.push_back(candle.volume);
        if self.vol_history.len() > self.volume_baseline_candles {
            self.vol_history.pop_front();
        }
        assert(self.vol_history@ =~= rolled(old(self).vol_history@, candle.volume, self.volume_baseline_candles as int));

        let vol_avg = if self.vol_history.len() == 0 {
            Dec::one()
        } else {
            let sum = dec_sum(&self.vol_history);
            dec_div(&sum, &Dec::from_usize(self.vol_history.len()))
        };
        let volume_spike = if dec_lt(&Dec::zero(), &vol_avg) {
            let threshold = dec_mul(&vol_avg, &self.volume_spike_multiplier);
            dec_le(&threshold, &candle.volume)
        } else {
            false
        };

        let ghost spike = volume_spike;
        let ghost min = self.wick_min_frac;
        let mut sweeps: Vec<RawSweep> = Vec::new();

        // Bearish sweeps: the wick rose above a swing high, the close is back below.
        let mut i: usize = 0;
        while i < live_highs.len()
            invariant
                0 <= i <= live_highs@.len(),
                candle.wf(),
                levels_valid(live_highs@),
                forall|k: int|
                    0 <= k < live_highs@.len() && candle.high@ > (#[trigger] live_highs@[k]).price@ && candle.close@
                        < live_highs@[k].price@ ==> ratio_defined(candle.high, live_highs@[k].price, live_highs@[k].price),
                min == self.wick_min_frac,
                min.wf(),
                spike == volume_spike,
                sweeps@.len() == swept_highs(*candle, live_highs@.take(i as int), min).len(),
                forall|k: int| 0 <= k < sweeps@.len() ==>
                    reports(#[trigger] sweeps@[k], *candle,
                        swept_highs(*candle, live_highs@.take(i as int), min)[k],
                        SweepDirection::Bearish, spike),
            decreases live_highs@.len() - i,
        {
            let level = live_highs[i];
            let ghost before = sweeps@;
            let ghost prev = swept_highs(*candle, live_highs@.take(i as int), min);
            assert(live_highs@.take(i + 1).drop_last() =~= live_highs@.take(i as int));
            assert(live_highs@.take(i + 1).last() == level);
            assert(swept_highs(*candle, live_highs@.take(i + 1), min) == (if sweeps_high(*candle, level, min) {
                prev.push(level)
            } else {
                prev
            }));
            if dec_lt(&level.price, &candle.high) && dec_lt(&candle.close, &level.price) {
                let wick_pct = dec_ratio(&candle.high, &level.price, &level.price);
                if !dec_lt(&wick_pct, &self.wick_min_frac) {
                    sweeps.push(RawSweep {
                        direction: SweepDirection::Bearish,
                        level_price: level.price,
                        sweep_extreme: candle.high,
                        wick_pct,
                        close_price: candle.close,
                        candle_volume: candle.volume,
                        liq_count: candle.liq_count,
                        candle_ts_ms: candle.bucket_ms,
                        volume_spike,
                        swept_level: level,
                    });
                    proof {
                        assert(sweeps_high(*candle, level, min));
                        assert(reports(sweeps@[before.len() as int], *candle, level, SweepDirection::Bearish, spike));
                    }
                } else {
                    assert(!sweeps_high(*candle, level, min));
                }
            } else {
                assert(!sweeps_high(*candle, level, min));
            }
            proof {
                let now = swept_highs(*candle, live_highs@.take(i + 1), min);
                assert forall|k: int| 0 <= k < sweeps@.len() implies reports(
                    #[trigger] sweeps@[k],
                    *candle,
                    now[k],
                    SweepDirection::Bearish,
                    spike,
                ) by {
                    if k < before.len() {
                        assert(sweeps@[k] == before[k]);
                        assert(now[k] == prev[k]);
                    }
                }
            }
            i = i + 1;
        }
        assert(live_highs@.take(live_highs@.len() as int) =~= live_highs@);
        let ghost nh = sweeps@.len();

        // Bullish sweeps: the wick fell below a swing low, the close is back above.
        let mut j: usize = 0;
        while j < live_lows.len()
            invariant
                0 <= j <= live_lows@.len(),
                candle.wf(),
                levels_valid(live_lows@),
                forall|k: int|
                    0 <= k < live_lows@.len() && candle.low@ < (#[trigger] live_lows@[k]).price@ && candle.close@
                        > live_lows@[k].price@ ==> ratio_defined(live_lows@[k].price, candle.low, live_lows@[k].price),
                min == self.wick_min_frac,
                min.wf(),
                spike == volume_spike,
                nh == swept_highs(*candle, live_highs@, min).len(),
                sweeps@.len() == nh + swept_lows(*candle, live_lows@.take(j as int), min).len(),
                forall|k: int| 0 <= k < nh ==>
                    reports(#[trigger] sweeps@[k], *candle, swept_highs(*candle, live_highs@, min)[k],
                        SweepDirection::Bearish, spike),
                forall|k: int| 0 <= k < sweeps@.len() - nh ==>
                    reports(#[trigger] sweeps@[nh + k], *candle,
                        swept_lows(*candle, live_lows@.take(j as int), min)[k],
                        SweepDirection::Bullish, spike),
            decreases live_lows@.len() - j,
        {
            let level = live_lows[j];
            let ghost before = sweeps@;
            let ghost prev = swept_lows(*candle, live_lows@.take(j as int), min);
            assert(live_lows@.take(j + 1).drop_last() =~= live_lows@.take(j as int));
            assert(live_lows@.take(j + 1).last() == level);
            assert(swept_lows(*candle, live_lows@.take(j + 1), min) == (if sweeps_low(*candle, level, min) {
                prev.push(level)
            } else {
                prev
            }));
            if dec_lt(&candle.low, &level.price) && dec_lt(&level.price, &candle.close) {
                let wick_pct = dec_ratio(&level.price, &candle.low, &level.price);
                if !dec_lt(&wick_pct, &self.wick_min_frac) {
                    sweeps.push(RawSweep {
                        direction: SweepDirection::Bullish,
                        level_price: level.price,
                        sweep_extreme: candle.low,
                        wick_pct,
                        close_price: candle.close,
                        candle_volume: candle.volume,
                        liq_count: candle.liq_count,
                        candle_ts_ms: candle.bucket_ms,
                        volume_spike,
                        swept_level: level,
                    });
                    proof {
                        assert(sweeps_low(*candle, level, min));
                        assert(reports(sweeps@[before.len() as int], *candle, level, SweepDirection::Bullish, spike));
                    }
                } else {
                    assert(!sweeps_low(*candle, level, min));
                }
            } else {
                assert(!sweeps_low(*candle, level, min));
            }
            proof {
                let now = swept_lows(*candle, live_lows@.take(j + 1), min);
                assert forall|k: int| 0 <= k < sweeps@.len() - nh implies reports(
                    #[trigger] sweeps@[nh + k],
                    *candle,
                    now[k],
                    SweepDirection::Bullish,
                    spike,
                ) by {
                    if k < before.len() - nh {
                        assert(sweeps@[nh + k] == before[nh + k]);
                        assert(now[k] == prev[k]);
                    }
                }
                assert forall|k: int| 0 <= k < nh implies reports(
                    #[trigger] sweeps@[k],
                    *candle,
                    swept_highs(*candle, live_highs@, min)[k],
                    SweepDirection::Bearish,
                    spike,
                ) by {
                    assert(sweeps@[k] == before[k]);
                }
            }
            j = j + 1;
        }
        assert(live_lows@.take(live_lows@.len() as int) =~= live_lows@);
        sweeps
    }
}

/// Every swept high was pierced by the wick and closed back under; every
/// swept low was pierced and closed back over.
pub proof fn law_swept_levels_pierced(c: Candle, ls: Seq<SwingLevel>, min: Dec)
    ensures
        forall|k: int| 0 <= k < swept_highs(c, ls, min).len() ==> {
            let l = #[trigger] swept_highs(c, ls, min)[k];
            c.high@ > l.price@ && c.close@ < l.price@
        },
        forall|k: int| 0 <= k < swept_lows(c, ls, min).len() ==> {
            let l = #[trigger] swept_lows(c, ls, min)[k];
            c.low@ < l.price@ && c.close@ > l.price@
        },
    decreases ls.len(),
{
    if ls.len() > 0 {
        law_swept_levels_pierced(c, ls.drop_last(), min);
    }
}

/// A sweep report says what the candle did: a bearish report's candle
/// wicked above the level and closed below it, a bullish report's candle
/// wicked below and closed above, and the wick went at least the minimum
/// fraction past the level.
pub proof fn law_sweep_reports(
    before: SweepDetector,
    after: SweepDetector,
    candle: Candle,
    highs: Seq<SwingLevel>,
    lows: Seq<SwingLevel>,
    r: Seq<RawSweep>,
)
    requires
        sweep_step(before, after, candle, highs, lows, r),
    ensures
        forall|k: int| 0 <= k < r.len() ==> {
            let s = #[trigger] r[k];
            &&& s.direction == SweepDirection::Bearish ==> candle.high@ > s.level_price@ && candle.close@
                < s.level_price@
            &&& s.direction == SweepDirection::Bullish ==> candle.low@ < s.level_price@ && candle.close@
                > s.level_price@
            &&& !(s.wick_pct@ < before.min_wick()@)
        },
{
    law_swept_levels_pierced(candle, highs, before.min_wick());
    let sh = swept_highs(candle, highs, before.min_wick());
    let sl = swept_lows(candle, lows, before.min_wick());
    lemma_swept_highs_sweep(candle, highs, before.min_wick());
    lemma_swept_lows_sweep(candle, lows, before.min_wick());
    assert forall|k: int| 0 <= k < r.len() implies {
        let s = #[trigger] r[k];
        &&& s.direction == SweepDirection::Bearish ==> candle.high@ > s.level_price@ && candle.close@
            < s.level_price@
        &&& s.direction == SweepDirection::Bullish ==> candle.low@ < s.level_price@ && candle.close@
            > s.level_price@
        &&& !(s.wick_pct@ < before.min_wick()@)
    } by {
        if k < sh.len() {
            assert(sh[k] == sh[k]);
        } else {
            let j = k - sh.len();
            assert(r[sh.len() + j] == r[k]);
            assert(sl[j] == sl[j]);
        }
    }
}

proof fn lemma_swept_highs_sweep(c: Candle, ls: Seq<SwingLevel>, min: Dec)
    ensures
        forall|k: int| 0 <= k < swept_highs(c, ls, min).len() ==> sweeps_high(c, #[trigger] swept_highs(c, ls, min)[k], min),
    decreases ls.len(),
{
    if ls.len() > 0 {
        lemma_swept_highs_sweep(c, ls.drop_last(), min);
        let prev = swept_highs(c, ls.drop_last(), min);
        assert forall|k: int| 0 <= k < swept_highs(c, ls, min).len() implies sweeps_high(
            c,
            #[trigger] swept_highs(c, ls, min)[k],
            min,
        ) by {
            if k < prev.len() {
                assert(swept_highs(c, ls, min)[k] == prev[k]);
            }
        }
    }
}

proof fn lemma_swept_lows_sweep(c: Candle, ls: Seq<SwingLevel>, min: Dec)
    ensures
        forall|k: int| 0 <= k < swept_lows(c, ls, min).len() ==> sweeps_low(c, #[trigger] swept_lows(c, ls, min)[k], min),
    decreases ls.len(),
{
    if ls.len() > 0 {
        lemma_swept_lows_sweep(c, ls.drop_last(), min);
        let prev = swept_lows(c, ls.drop_last(), min);
        assert forall|k: int| 0 <= k < swept_lows(c, ls, min).len() implies sweeps_low(
            c,
            #[trigger] swept_lows(c, ls, min)[k],
            min,
        ) by {
            if k < prev.len() {
                assert(swept_lows(c, ls, min)[k] == prev[k]);
            }
        }
    }
}


/// Every high the candle sweeps is among `swept_highs`.
proof fn lemma_swept_highs_complete(c: Candle, ls: Seq<SwingLevel>, min: Dec, i: int)
    requires
        0 <= i < ls.len(),
        c.high@ > ls[i].price@,
        c.close@ < ls[i].price@,
        !(quotient_of(difference_of(c.high, ls[i].price), ls[i].price)@ < min@),
    ensures
        exists|j: int| 0 <= j < swept_highs(c, ls, min).len() && swept_highs(c, ls, min)[j] == ls[i],
    decreases ls.len(),
{
    let prev = swept_highs(c, ls.drop_last(), min);
    if i == ls.len() - 1 {
        assert(sweeps_high(c, ls.last(), min));
        assert(swept_highs(c, ls, min) == prev.push(ls.last()));
        assert(swept_highs(c, ls, min)[prev.len() as int] == ls[i]);
    } else {
        assert(ls.drop_last()[i] == ls[i]);
        lemma_swept_highs_complete(c, ls.drop_last(), min, i);
        let j = choose|j: int| 0 <= j < prev.len() && prev[j] == ls[i];
        assert(swept_highs(c, ls, min)[j] == ls[i]);
    }
}

/// Every low the candle sweeps is among `swept_lows`.
proof fn lemma_swept_lows_complete(c: Candle, ls: Seq<SwingLevel>, min: Dec, i: int)
    requires
        0 <= i < ls.len(),
        c.low@ < ls[i].price@,
        c.close@ > ls[i].price@,
        !(quotient_of(difference_of(ls[i].price, c.low), ls[i].price)@ < min@),
    ensures
        exists|j: int| 0 <= j < swept_lows(c, ls, min).len() && swept_lows(c, ls, min)[j] == ls[i],
    decreases ls.len(),
{
    let prev = swept_lows(c, ls.drop_last(), min);
    if i == ls.len() - 1 {
        assert(sweeps_low(c, ls.last(), min));
        assert(swept_lows(c, ls, min) == prev.push(ls.last()));
        assert(swept_lows(c, ls, min)[prev.len() as int] == ls[i]);
    } else {
        assert(ls.drop_last()[i] == ls[i]);
        lemma_swept_lows_complete(c, ls.drop_last(), min, i);
        let j = choose|j: int| 0 <= j < prev.len() && prev[j] == ls[i];
        assert(swept_lows(c, ls, min)[j] == ls[i]);
    }
}

/// No sweep goes unreported: every live high that the candle's high
/// exceeds, whose price its close is back under and whose wick reaches the
/// minimum fraction of the level, has a bearish report, and every such low
/// a bullish one.
pub proof fn law_sweeps_complete(
    before: SweepDetector,
    after: SweepDetector,
    candle: Candle,
    highs: Seq<SwingLevel>,
    lows: Seq<SwingLevel>,
    r: Seq<RawSweep>,
)
    requires
        sweep_step(before, after, candle, highs, lows, r),
    ensures
        forall|i: int|
            0 <= i < highs.len() && candle.high@ > (#[trigger] highs[i]).price@ && candle.close@ < highs[i].price@
                && !(quotient_of(difference_of(candle.high, highs[i].price), highs[i].price)@ < before.min_wick()@)
                ==> exists|k: int|
                0 <= k < r.len() && r[k].direction == SweepDirection::Bearish && r[k].swept_level == highs[i],
        forall|i: int|
            0 <= i < lows.len() && candle.low@ < (#[trigger] lows[i]).price@ && candle.close@ > lows[i].price@
                && !(quotient_of(difference_of(lows[i].price, candle.low), lows[i].price)@ < before.min_wick()@)
                ==> exists|k: int|
                0 <= k < r.len() && r[k].direction == SweepDirection::Bullish && r[k].swept_level == lows[i],
{
    let min = before.min_wick();
    let sh = swept_highs(candle, highs, min);
    let sl = swept_lows(candle, lows, min);
    let spike = is_spike(candle.volume, baseline_dec(after.volumes()), before.multiplier());
    assert forall|i: int|
        0 <= i < highs.len() && candle.high@ > (#[trigger] highs[i]).price@ && candle.close@ < highs[i].price@
            && !(quotient_of(difference_of(candle.high, highs[i].price), highs[i].price)@ < min@)
            implies exists|k: int|
            0 <= k < r.len() && r[k].direction == SweepDirection::Bearish && r[k].swept_level == highs[i] by {
        lemma_swept_highs_complete(candle, highs, min, i);
        let j = choose|j: int| 0 <= j < sh.len() && sh[j] == highs[i];
        assert(reports(r[j], candle, sh[j], SweepDirection::Bearish, spike));
        assert(0 <= j < r.len() && r[j].direction == SweepDirection::Bearish && r[j].swept_level == highs[i]);
    }
    assert forall|i: int|
        0 <= i < lows.len() && candle.low@ < (#[trigger] lows[i]).price@ && candle.close@ > lows[i].price@
            && !(quotient_of(difference_of(lows[i].price, candle.low), lows[i].price)@ < min@)
            implies exists|k: int|
            0 <= k < r.len() && r[k].direction == SweepDirection::Bullish && r[k].swept_level == lows[i] by {
        lemma_swept_lows_complete(candle, lows, min, i);
        let j = choose|j: int| 0 <= j < sl.len() && sl[j] == lows[i];
        let k = sh.len() + j;
        assert(reports(r[k], candle, sl[j], SweepDirection::Bullish, spike));
        assert(0 <= k < r.len() && r[k].direction == SweepDirection::Bullish && r[k].swept_level == lows[i]);
    }
}
} // verus!
