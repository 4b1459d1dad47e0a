//! Liquidation cascades: sustained directional movement with liquidations
//! and above-average volume.

use vstd::prelude::*;
use crate::decimal::{
    Dec, dec_lt, dec_eq, quotient_of, count_dec, product_of, sum_opt, decs_opt, decs_total, quotient_opt,
    product_opt, dec_sum_checked, checked_sum, checked_quotient, checked_product,
};
use crate::detection::candle_builder::Candle;
use crate::detection::interval_config::IntervalConfig;
use crate::detection::sweep_detector::{rolled, baseline, baseline_dec};
use crate::detection::types::CascadeDirection;
use std::collections::VecDeque;

verus! {

/// One detected cascade.
#[derive(Clone, Copy, Debug)]
pub struct RawCascade {
    pub direction: CascadeDirection,
    pub start_price: Dec,
    pub end_price: Dec,
    pub liq_count_total: u32,
    pub candles_sustained: u32,
    /// Volume of the last candle of the window over that of the first:
    /// above one the move accelerates, below one it slows down.
    pub volume_acceleration: Dec,
    pub start_ts_ms: i64,
    pub end_ts_ms: i64,
}

/// Every candle of the window closed below its open.
pub open spec fn all_bearish(w: Seq<Candle>) -> bool {
    forall|i: int| 0 <= i < w.len() ==> (#[trigger] w[i]).close@ < w[i].open@
}

/// Every candle of the window closed above its open.
pub open spec fn all_bullish(w: Seq<Candle>) -> bool {
    forall|i: int| 0 <= i < w.len() ==> (#[trigger] w[i]).close@ > w[i].open@
}

/// The direction of a one-sided window: falling prices liquidate longs,
/// rising prices liquidate shorts.
pub open spec fn window_direction(w: Seq<Candle>) -> Option<CascadeDirection> {
    if all_bearish(w) {
        Some(CascadeDirection::LongLiq)
    } else if all_bullish(w) {
        Some(CascadeDirection::ShortLiq)
    } else {
        None
    }
}

/// Liquidation trades in the window.
pub open spec fn liq_total(w: Seq<Candle>) -> int
    decreases w.len(),
{
    if w.len() == 0 {
        0
    } else {
        liq_total(w.drop_last()) + w.last().liq_count
    }
}

/// Total volume of the window, added up from zero with `rust_decimal`'s
/// `+`; `None` where a partial sum overflows.
pub open spec fn window_volume_opt(w: Seq<Candle>) -> Option<Dec>
    decreases w.len(),
{
    if w.len() == 0 {
        Some(Dec { mantissa: 0, scale: 0 })
    } else {
        match window_volume_opt(w.drop_last()) {
            Some(t) => sum_opt(t, w.last().volume),
            None => None,
        }
    }
}

/// Total volume of the window, where it is defined.
pub open spec fn volume_total(w: Seq<Candle>) -> Dec {
    window_volume_opt(w).unwrap()
}

/// Average candle volume of the window as `rust_decimal` computes it.
pub open spec fn window_average(w: Seq<Candle>) -> int {
    quotient_of(volume_total(w), count_dec(w.len()))@
}

/// The window is full and one-sided, the direction was not the last one
/// reported, so the liquidations are counted.
pub open spec fn counts_liquidations(w: Seq<Candle>, sustain: int, last: Option<CascadeDirection>) -> bool {
    &&& w.len() >= sustain
    &&& window_direction(w) is Some
    &&& last != window_direction(w)
}

/// All cascade conditions hold for the window.
pub open spec fn fires(
    w: Seq<Candle>,
    vols: Seq<Dec>,
    mult: Dec,
    sustain: int,
    last: Option<CascadeDirection>,
) -> bool {
    &&& counts_liquidations(w, sustain, last)
    &&& liq_total(w) > 0
    &&& !(window_average(w) < product_of(baseline_dec(vols), mult)@)
}

/// The direction remembered after a candle: cleared by a mixed window,
/// set by a report, otherwise kept.
pub open spec fn next_reported(
    w: Seq<Candle>,
    vols: Seq<Dec>,
    mult: Dec,
    sustain: int,
    last: Option<CascadeDirection>,
) -> Option<CascadeDirection> {
    if w.len() < sustain {
        last
    } else if window_direction(w) is None {
        None
    } else if fires(w, vols, mult, sustain, last) {
        window_direction(w)
    } else {
        last
    }
}

/// `r` describes the cascade of window `w`.
pub open spec fn describes(r: RawCascade, w: Seq<Candle>) -> bool {
    let first = w[0];
    let last = w[w.len() - 1];
    &&& Some(r.direction) == window_direction(w)
    &&& r.start_price == first.open
    &&& r.end_price == last.close
    &&& r.liq_count_total == liq_total(w)
    &&& r.candles_sustained == w.len()
    &&& r.volume_acceleration.wf()
    &&& r.volume_acceleration == (if first.volume@ == 0 {
        Dec { mantissa: 1, scale: 0 }
    } else {
        quotient_of(last.volume, first.volume)
    })
    &&& r.start_ts_ms == first.bucket_ms
    &&& r.end_ts_ms == last.bucket_ms
}

/// One candle through the detector: the candle window and the volume
/// baseline roll, the remembered direction moves on, and `r` is a cascade
/// exactly when all conditions hold for the new window.
pub open spec fn cascade_step(
    before: CascadeDetector,
    after: CascadeDetector,
    candle: Candle,
    r: Option<RawCascade>,
) -> bool {
    let w = after.candles();
    let vols = after.volumes();
    &&& after.sustain() == before.sustain()
    &&& after.multiplier() == before.multiplier()
    &&& after.capacity() == before.capacity()
    &&& w == rolled(before.candles(), candle, before.sustain() as int)
    &&& vols == rolled(before.volumes(), candle.volume, before.capacity() as int)
    &&& after.last_reported() == next_reported(
        w,
        vols,
        before.multiplier(),
        before.sustain() as int,
        before.last_reported(),
    )
    &&& (r is Some <==> fires(w, vols, before.multiplier(), before.sustain() as int, before.last_reported()))
    &&& (r matches Some(c) ==> describes(c, w))
}

/// Every `rust_decimal` operation of one candle through the detector is
/// defined (each would panic otherwise): once the window is full, one-sided,
/// not reported yet and holds a liquidation, the sum and average of the
/// rolled volumes, the sum and average of the window's volumes and the
/// baseline times the multiplier; for a report, the volume acceleration.
pub open spec fn cascade_computes(d: CascadeDetector, candle: Candle) -> bool {
    let w = rolled(d.candles(), candle, d.sustain() as int);
    let vols = rolled(d.volumes(), candle.volume, d.capacity() as int);
    &&& counts_liquidations(w, d.sustain() as int, d.last_reported()) && liq_total(w) > 0 ==> {
        &&& decs_opt(vols) is Some
        &&& quotient_opt(decs_total(vols), count_dec(vols.len())) is Some
        &&& window_volume_opt(w) is Some
        &&& quotient_opt(volume_total(w), count_dec(w.len())) is Some
        &&& product_opt(baseline_dec(vols), d.multiplier()) is Some
    }
    &&& fires(w, vols, d.multiplier(), d.sustain() as int, d.last_reported()) && w[0].volume@ != 0
        ==> quotient_opt(w[w.len() - 1].volume, w[0].volume) is Some
}

/// The liquidation count the detector would total after `candle` fits in
/// a `u32` whenever it is totalled.
pub open spec fn liq_fits(d: CascadeDetector, candle: Candle) -> bool {
    let w = rolled(d.candles(), candle, d.sustain() as int);
    counts_liquidations(w, d.sustain() as int, d.last_reported()) ==> liq_total(w) <= u32::MAX
}

/// Detects liquidation cascades. A cascade is reported once, when the
/// sustain window is first satisfied; the same direction cannot be reported
/// again until a mixed window breaks the run.
pub struct CascadeDetector {
    sustain_candles: usize,
    volume_spike_multiplier: Dec,
    volume_baseline_candles: usize,
    window: VecDeque<Candle>,
    vol_history: VecDeque<Dec>,
    /// Direction of the last reported cascade.
    last_reported: Option<CascadeDirection>,
}

impl CascadeDetector {
    pub closed spec fn sustain(&self) -> usize {
        self.sustain_candles
    }

    pub closed spec fn multiplier(&self) -> Dec {
        self.volume_spike_multiplier
    }

    pub closed spec fn capacity(&self) -> usize {
        self.volume_baseline_candles
    }

    pub closed spec fn candles(&self) -> Seq<Candle> {
        self.window@
    }

    pub closed spec fn volumes(&self) -> Seq<Dec> {
        self.vol_history@
    }

    pub closed spec fn last_reported(&self) -> Option<CascadeDirection> {
        self.last_reported
    }

    pub closed spec fn wf(&self) -> bool {
        &&& 1 <= self.sustain_candles <= 1000
        &&& self.volume_spike_multiplier.wf()
        &&& 1 <= self.volume_baseline_candles <= 1000
        &&& self.window@.len() <= self.sustain_candles
        &&& self.vol_history@.len() <= self.volume_baseline_candles
        &&& forall|i: int| 0 <= i < self.window@.len() ==> (#[trigger] self.window@[i]).wf()
        &&& forall|i: int| 0 <= i < self.vol_history@.len() ==> (#[trigger] self.vol_history@[i]).wf()
    }

    pub fn new(cfg: &IntervalConfig) -> (d: Self)
        requires
            cfg.wf(),
        ensures
            d.wf(),
            d.sustain() == cfg.cascade_sustain_candles,
            d.multiplier() == cfg.volume_spike_multiplier,
            d.capacity() == cfg.volume_baseline_candles,
            d.candles().len() == 0,
            d.volumes().len() == 0,
            d.last_reported() is None,
    {
        CascadeDetector {
            sustain_candles: cfg.cascade_sustain_candles,
            volume_spike_multiplier: cfg.volume_spike_multiplier,
            volume_baseline_candles: cfg.volume_baseline_candles,
            window: VecDeque::with_capacity(cfg.cascade_sustain_candles + 1),
            vol_history: VecDeque::with_capacity(cfg.volume_baseline_candles + 1),
            last_reported: None,
        }
    }

    /// Feeds a closed candle; returns a cascade when the conditions are
    /// first met: a full window of candles all closing the same way, at
    /// least one liquidation, and an average window volume at least the
    /// volume baseline times the spike multiplier. Returns `None`, leaving
    /// the detector in no particular state, where one of the `rust_decimal`
    /// operations this takes overflows.
    pub fn push(&mut self, candle: Candle) -> (r: Option<Option<RawCascade>>)
        requires
            old(self).wf(),
            candle.wf(),
            liq_fits(*old(self), candle),
        ensures
            r is Some <==> cascade_computes(*old(self), candle),
            r matches Some(c) ==> final(self).wf() && cascade_step(*old(self), *final(self), candle, c),
    {
        self.vol_history.push_back(candle.volume);
        if self.vol_history.len() > self.volume_baseline_candles {
            self.vol_history.pop_front();
        }
        assert(self.vol_history@ =~= rolled(old(self).vol_history@, candle.volume, self.volume_baseline_candles as int));

        self.window.push_back(candle);
        if self.window.len() > self.sustain_candles {
            self.window.pop_front();
        }
        assert(self.window@ =~= rolled(old(self).window@, candle, self.sustain_candles as int));

        if self.window.len() < self.sustain_candles {
            return Some(None);
        }

        let ghost w = self.window@;
        let ghost vols = self.vol_history@;
        let bearish = self.all_close(true);
        let bullish = self.all_close(false);
        if !bearish && !bullish {
            self.last_reported = None;
            return Some(None);
        }
        let direction = if bearish {
            CascadeDirection::LongLiq
        } else {
            proof {
                // A non-empty window cannot close both ways.
                assert(!all_bearish(w)) ;
                assert(w[0].close@ > w[0].open@);
            }
            CascadeDirection::ShortLiq
        };
        if bearish {
            assert(window_direction(w) == Some(CascadeDirection::LongLiq));
        } else {
            assert(window_direction(w) == Some(CascadeDirection::ShortLiq));
        }

        let suppressed = match self.last_reported {
            Some(d) => d == direction,
            None => false,
        };
        if suppressed {
            return Some(None);
        }

        let total_liq = self.liquidations();
        if total_liq == 0 {
            return Some(None);
        }
        assert(counts_liquidations(w, self.sustain_candles as int, old(self).last_reported));

        let history_sum = match dec_sum_checked(&self.vol_history) {
            Some(t) => t,
            None => {
                return None;
            },
        };
        let vol_baseline = match checked_quotient(&history_sum, &Dec::from_usize(self.vol_history.len())) {
            Some(q) => q,
            None => {
                return None;
            },
        };
        assert(vol_baseline == baseline_dec(vols));
        let window_sum = match self.window_volume() {
            Some(t) => t,
            None => {
                return None;
            },
        };
        let avg_window_vol = match checked_quotient(&window_sum, &Dec::from_usize(self.window.len())) {
            Some(q) => q,
            None => {
                return None;
            },
        };
        let threshold = match checked_product(&vol_baseline, &self.volume_spike_multiplier) {
            Some(p) => p,
            None => {
                return None;
            },
        };
        if dec_lt(&avg_window_vol, &threshold) {
            return Some(None);
        }
        assert(fires(w, vols, self.volume_spike_multiplier, self.sustain_candles as int, old(self).last_reported));

        self.last_reported = Some(direction);
        let first = self.window[0];
        let last = self.window[self.window.len() - 1];
        proof {
            assert(w[0] == first);
            assert(w[w.len() - 1] == candle);
        }
        let volume_acceleration = if dec_eq(&first.volume, &Dec::zero()) {
            Dec::one()
        } else {
            match checked_quotient(&last.volume, &first.volume) {
                Some(q) => q,
                None => {
                    return None;
                },
            }
        };
        Some(
            Some(
                RawCascade {
                    direction,
                    start_price: first.open,
                    end_price: last.close,
                    liq_count_total: total_liq,
                    candles_sustained: self.window.len() as u32,
                    volume_acceleration,
                    start_ts_ms: first.bucket_ms,
                    end_ts_ms: last.bucket_ms,
                },
            ),
        )
    }

    /// Whether the detector can take `candle`: the liquidations of the
    /// window it would complete add up to at most `u32::MAX` whenever
    /// they are totalled (a full, one-sided window not reported yet).
    pub fn liquidations_fit(&self, candle: &Candle) -> (r: bool)
        requires
            self.wf(),
            candle.wf(),
        ensures
            r == liq_fits(*self, *candle),
    {
        let ghost w = rolled(self.window@, *candle, self.sustain_candles as int);
        let ghost full = self.window@.push(*candle);
        let drop: usize = if self.window.len() + 1 > self.sustain_candles { 1 } else { 0 };
        proof {
            assert(w =~= full.subrange(drop as int, full.len() as int));
        }
        let mut total: u64 = 0;
        let mut i: usize = drop;
        while i < self.window.len()
            invariant
                drop <= i <= self.window@.len(),
                drop <= 1,
                self.window@.len() <= 1000,
                full == self.window@.push(*candle),
                total == liq_total(full.subrange(drop as int, i as int)),
                total <= (i - drop) * 0xffff_ffffu64,
            decreases self.window@.len() - i,
        {
            assert(full.subrange(drop as int, i + 1).drop_last() =~= full.subrange(drop as int, i as int));
            total = total + self.window[i].liq_count as u64;
            i = i + 1;
        }
        assert(full.subrange(drop as int, full.len() as int).drop_last() =~= full.subrange(drop as int, self.window@.len() as int));
        total = total + candle.liq_count as u64;
        if total <= 0xffff_ffffu64 {
            return true;
        }
        if self.window.len() + 1 - drop < self.sustain_candles {
            return true;
        }
        let bearish = self.rolled_close(candle, drop, true);
        let bullish = self.rolled_close(candle, drop, false);
        if !bearish && !bullish {
            return true;
        }
        let direction = if bearish {
            CascadeDirection::LongLiq
        } else {
            proof {
                assert(!all_bearish(w));
                assert(w[0].close@ > w[0].open@);
            }
            CascadeDirection::ShortLiq
        };
        match self.last_reported {
            Some(d) => d == direction,
            None => false,
        }
    }

    /// Whether every candle of the window that `candle` completes, the
    /// first `drop` of the current ones left out, closed below (`down`) or
    /// above its open.
    fn rolled_close(&self, candle: &Candle, drop: usize, down: bool) -> (r: bool)
        requires
            drop <= 1,
            drop <= self.window@.len(),
            candle.wf(),
            forall|i: int| 0 <= i < self.window@.len() ==> (#[trigger] self.window@[i]).wf(),
        ensures
            ({
                let w = self.window@.push(*candle).subrange(drop as int, self.window@.len() as int + 1);
                r == (if down { all_bearish(w) } else { all_bullish(w) })
            }),
    {
        let ghost w = self.window@.push(*candle).subrange(drop as int, self.window@.len() as int + 1);
        let mut i: usize = drop;
        while i < self.window.len()
            invariant
                drop <= i <= self.window@.len(),
                w == self.window@.push(*candle).subrange(drop as int, self.window@.len() as int + 1),
                forall|k: int| 0 <= k < self.window@.len() ==> (#[trigger] self.window@[k]).wf(),
                forall|k: int| drop <= k < i ==> (if down {
                    (#[trigger] self.window@[k]).close@ < self.window@[k].open@
                } else {
                    self.window@[k].close@ > self.window@[k].open@
                }),
            decreases self.window@.len() - i,
        {
            let c = self.window[i];
            let ok = if down {
                dec_lt(&c.close, &c.open)
            } else {
                dec_lt(&c.open, &c.close)
            };
            if !ok {
                assert(w[i - drop] == self.window@[i as int]);
                return false;
            }
            i = i + 1;
        }
        let ok = if down {
            dec_lt(&candle.close, &candle.open)
        } else {
            dec_lt(&candle.open, &candle.close)
        };
        proof {
            assert(w[w.len() - 1] == *candle);
            assert forall|j: int| 0 <= j < w.len() - 1 implies #[trigger] w[j] == self.window@[drop + j] by {}
        }
        ok
    }

    /// Whether every candle of the window closed below (`down`) or above
    /// its open.
    fn all_close(&self, down: bool) -> (r: bool)
        requires
            forall|i: int| 0 <= i < self.window@.len() ==> (#[trigger] self.window@[i]).wf(),
        ensures
            r == (if down { all_bearish(self.window@) } else { all_bullish(self.window@) }),
    {
        let mut i: usize = 0;
        while i < self.window.len()
            invariant
                0 <= i <= self.window@.len(),
                forall|k: int| 0 <= k < self.window@.len() ==> (#[trigger] self.window@[k]).wf(),
                forall|k: int| 0 <= k < i ==> (if down {
                    (#[trigger] self.window@[k]).close@ < self.window@[k].open@
                } else {
                    self.window@[k].close@ > self.window@[k].open@
                }),
            decreases self.window@.len() - i,
        {
            let c = self.window[i];
            let ok = if down {
                dec_lt(&c.close, &c.open)
            } else {
                dec_lt(&c.open, &c.close)
            };
            if !ok {
                return false;
            }
            i = i + 1;
        }
        true
    }

    /// Liquidation trades in the window.
    fn liquidations(&self) -> (r: u32)
        requires
            liq_total(self.window@) <= u32::MAX,
        ensures
            r == liq_total(self.window@),
    {
        let mut total: u64 = 0;
        let mut i: usize = 0;
        while i < self.window.len()
            invariant
                0 <= i <= self.window@.len(),
                liq_total(self.window@) <= u32::MAX,
                total == liq_total(self.window@.take(i as int)),
            decreases self.window@.len() - i,
        {
            assert(self.window@.take(i + 1).drop_last() =~= self.window@.take(i as int));
            proof {
                lemma_liq_prefix(self.window@, i + 1);
            }
            total = total + self.window[i].liq_count as u64;
            i = i + 1;
        }
        assert(self.window@.take(self.window@.len() as int) =~= self.window@);
        total as u32
    }

    /// Total volume of the window, or `None` where a partial sum
    /// overflows.
    fn window_volume(&self) -> (r: Option<Dec>)
        requires
            forall|i: int| 0 <= i < self.window@.len() ==> (#[trigger] self.window@[i]).wf(),
        ensures
            r == window_volume_opt(self.window@),
            r matches Some(t) ==> t.wf(),
    {
        let mut acc = Dec::zero();
        let mut i: usize = 0;
        assert(self.window@.take(0).len() == 0);
        while i < self.window.len()
            invariant
                0 <= i <= self.window@.len(),
                forall|k: int| 0 <= k < self.window@.len() ==> (#[trigger] self.window@[k]).wf(),
                acc.wf(),
                window_volume_opt(self.window@.take(i as int)) == Some(acc),
            decreases self.window@.len() - i,
        {
            assert(self.window@.take(i + 1).drop_last() =~= self.window@.take(i as int));
            assert(self.window@.take(i + 1).last() == self.window@[i as int]);
            assert(self.window@[i as int].wf());
            match checked_sum(&acc, &self.window[i].volume) {
                Some(t) => {
                    acc = t;
                },
                None => {
                    proof {
                        if window_volume_opt(self.window@) is Some {
                            lemma_window_volume_prefix(self.window@, i + 1);
                        }
                    }
                    return None;
                },
            }
            i = i + 1;
        }
        assert(self.window@.take(self.window@.len() as int) =~= self.window@);
        Some(acc)
    }
}

/// A total that is defined has defined partial totals.
proof fn lemma_window_volume_prefix(w: Seq<Candle>, n: int)
    requires
        0 <= n <= w.len(),
        window_volume_opt(w) is Some,
    ensures
        window_volume_opt(w.take(n)) is Some,
    decreases w.len(),
{
    if n < w.len() {
        assert(w.drop_last().take(n) =~= w.take(n));
        lemma_window_volume_prefix(w.drop_last(), n);
    } else {
        assert(w.take(n) =~= w);
    }
}

/// A prefix of the window has no more liquidations than the whole.
proof fn lemma_liq_prefix(w: Seq<Candle>, n: int)
    requires
        0 <= n <= w.len(),
    ensures
        liq_total(w.take(n)) <= liq_total(w),
    decreases w.len(),
{
    if n < w.len() {
        assert(w.drop_last().take(n) =~= w.take(n));
        lemma_liq_prefix(w.drop_last(), n);
    } else {
        assert(w.take(n) =~= w);
    }
}

/// A cascade is reported once: after a report, however many candles
/// follow whose windows keep running the same way, none of them reports
/// again, and the direction stays remembered (only a mixed window clears
/// it).
pub proof fn law_cascade_reported_once(
    ds: Seq<CascadeDetector>,
    cs: Seq<Candle>,
    rs: Seq<Option<RawCascade>>,
    first: RawCascade,
)
    requires
        ds.len() == cs.len() + 1,
        rs.len() == cs.len(),
        cs.len() >= 1,
        forall|i: int| #![trigger rs[i]] 0 <= i < cs.len() ==> cascade_step(ds[i], ds[i + 1], cs[i], rs[i]),
        rs[0] == Some(first),
        forall|j: int| 2 <= j <= cs.len() ==> window_direction((#[trigger] ds[j]).candles()) == Some(
            first.direction,
        ),
    ensures
        forall|i: int| 1 <= i < cs.len() ==> (#[trigger] rs[i]) is None,
        forall|i: int| 1 <= i <= cs.len() ==> (#[trigger] ds[i]).last_reported() == Some(first.direction),
{
    assert forall|k: int| 1 <= k <= cs.len() implies (#[trigger] ds[k]).last_reported() == Some(first.direction) by {
        lemma_reported_through(ds, cs, rs, first, k);
    }
    assert forall|i: int| 1 <= i < cs.len() implies (#[trigger] rs[i]) is None by {
        lemma_reported_through(ds, cs, rs, first, i);
        assert(ds[i + 1] == ds[i + 1]);
    }
}

proof fn lemma_reported_through(
    ds: Seq<CascadeDetector>,
    cs: Seq<Candle>,
    rs: Seq<Option<RawCascade>>,
    first: RawCascade,
    k: int,
)
    requires
        ds.len() == cs.len() + 1,
        rs.len() == cs.len(),
        1 <= k <= cs.len(),
        forall|i: int| #![trigger rs[i]] 0 <= i < cs.len() ==> cascade_step(ds[i], ds[i + 1], cs[i], rs[i]),
        rs[0] == Some(first),
        forall|j: int| 2 <= j <= cs.len() ==> window_direction((#[trigger] ds[j]).candles()) == Some(
            first.direction,
        ),
    ensures
        ds[k].last_reported() == Some(first.direction),
    decreases k,
{
    if k > 1 {
        lemma_reported_through(ds, cs, rs, first, k - 1);
        assert(rs[k - 1] == rs[k - 1]);
    } else {
        assert(rs[0] == rs[0]);
    }
}

/// Push `i` of a run broke a run of cascades in direction `dir`: it
/// completed a mixed window, or it reported a cascade the other way.
pub open spec fn breaks_run(
    ds: Seq<CascadeDetector>,
    rs: Seq<Option<RawCascade>>,
    i: int,
    dir: CascadeDirection,
) -> bool {
    ||| ds[i + 1].candles().len() >= ds[i].sustain() && window_direction(ds[i + 1].candles()) is None
    ||| rs[i] matches Some(c) && c.direction != dir
}

/// After a report, the detector remembers its direction until a push
/// breaks the run, and reports nothing meanwhile.
proof fn lemma_direction_held(
    ds: Seq<CascadeDetector>,
    cs: Seq<Candle>,
    rs: Seq<Option<RawCascade>>,
    k: int,
    j: int,
)
    requires
        ds.len() == cs.len() + 1,
        rs.len() == cs.len(),
        0 <= k <= j < cs.len(),
        forall|i: int| #![trigger rs[i]] 0 <= i < cs.len() ==> cascade_step(ds[i], ds[i + 1], cs[i], rs[i]),
        rs[k] is Some,
        forall|i: int| k < i <= j ==> !#[trigger] breaks_run(ds, rs, i, rs[k].unwrap().direction),
    ensures
        ds[j + 1].last_reported() == Some(rs[k].unwrap().direction),
        forall|i: int| k < i <= j ==> (#[trigger] rs[i]) is None,
    decreases j - k,
{
    let dir = rs[k].unwrap().direction;
    if j > k {
        lemma_direction_held(ds, cs, rs, k, j - 1);
        assert(rs[j] == rs[j]);
        assert(!breaks_run(ds, rs, j, dir));
        if rs[j] is Some {
            assert(rs[j].unwrap().direction != dir);
        }
    } else {
        assert(rs[k] == rs[k]);
    }
}

/// A cascade fires once per run: between two reports of the same
/// direction, some push in between completed a mixed window or reported a
/// cascade in the other direction.
pub proof fn law_cascade_repeat_needs_break(
    ds: Seq<CascadeDetector>,
    cs: Seq<Candle>,
    rs: Seq<Option<RawCascade>>,
    k: int,
    m: int,
)
    requires
        ds.len() == cs.len() + 1,
        rs.len() == cs.len(),
        forall|i: int| #![trigger rs[i]] 0 <= i < cs.len() ==> cascade_step(ds[i], ds[i + 1], cs[i], rs[i]),
        0 <= k < m < cs.len(),
        rs[k] is Some,
        rs[m] is Some,
        rs[k].unwrap().direction == rs[m].unwrap().direction,
    ensures
        exists|j: int| k < j < m && #[trigger] breaks_run(ds, rs, j, rs[k].unwrap().direction),
{
    let dir = rs[k].unwrap().direction;
    if !exists|j: int| k < j < m && #[trigger] breaks_run(ds, rs, j, dir) {
        lemma_direction_held(ds, cs, rs, k, m - 1);
        assert(rs[m] == rs[m]);
    }
}

/// A reported cascade ran one way over the whole window and saw at least
/// one liquidation.
pub proof fn law_cascade_report_shape(d0: CascadeDetector, d1: CascadeDetector, c: Candle, r: RawCascade)
    requires
        d0.wf(),
        cascade_step(d0, d1, c, Some(r)),
    ensures
        r.liq_count_total > 0,
        r.candles_sustained == d0.sustain(),
        r.direction == CascadeDirection::LongLiq ==> all_bearish(d1.candles()),
        r.direction == CascadeDirection::ShortLiq ==> all_bullish(d1.candles()),
{
    let w = d1.candles();
    assert(w.len() >= d0.sustain());
    assert(w.len() <= d0.sustain()) by {
        let full = d0.candles().push(c);
        if full.len() > d0.sustain() {
            assert(w == full.subrange(1, full.len() as int));
        }
    }
}


/// A full window whose candles all closed the same way, in a direction not
/// reported last, with at least one liquidation summed over the window and
/// an average volume reaching the baseline times the multiplier, is
/// reported, whatever the liquidations of any single candle; the report
/// carries the window's liquidation total and its direction.
pub proof fn law_cascade_fires_when_due(d0: CascadeDetector, d1: CascadeDetector, c: Candle, r: Option<RawCascade>)
    requires
        cascade_step(d0, d1, c, r),
        d1.candles().len() >= d0.sustain(),
        all_bearish(d1.candles()) || all_bullish(d1.candles()),
        d0.last_reported() != Some(
            if all_bearish(d1.candles()) {
                CascadeDirection::LongLiq
            } else {
                CascadeDirection::ShortLiq
            },
        ),
        liq_total(d1.candles()) > 0,
        !(window_average(d1.candles()) < product_of(baseline_dec(d1.volumes()), d0.multiplier())@),
    ensures
        r is Some,
        r.unwrap().liq_count_total == liq_total(d1.candles()),
        r.unwrap().direction == (if all_bearish(d1.candles()) {
            CascadeDirection::LongLiq
        } else {
            CascadeDirection::ShortLiq
        }),
{
}
} // verus!
