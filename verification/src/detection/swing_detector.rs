//! Swing highs and lows: pivot candles whose high (low) is strictly above
//! (below) that of `lookback` candles on each side, kept live until they
//! expire.

use vstd::prelude::*;
use crate::decimal::{Dec, dec_lt, dec_eq};
use crate::detection::candle_builder::Candle;
use crate::detection::interval_config::IntervalConfig;
use std::collections::VecDeque;

verus! {

#[derive(Clone, Copy, Debug, PartialEq, Eq, Structural)]
pub enum SwingKind {
    High,
    Low,
}

/// A confirmed swing level that has not yet expired.
#[derive(Clone, Copy, Debug)]
pub struct SwingLevel {
    pub price: Dec,
    /// Open time of the pivot candle.
    pub formed_ts_ms: i64,
    pub kind: SwingKind,
    /// Candles on each side that qualified the pivot (the lookback).
    pub strength: usize,
    /// Candles since the pivot; detection lags the pivot by the lookback.
    pub age_candles: usize,
}

/// Largest age a live level can reach before it is evicted.
pub open spec fn max_live_age() -> int {
    1_000_000
}

pub open spec fn window_len(lookback: usize) -> int {
    2 * lookback + 1
}

/// The last `w` candles of `h` (all of them if there are fewer).
pub open spec fn trimmed(h: Seq<Candle>, w: int) -> Seq<Candle> {
    if h.len() > w {
        h.subrange(h.len() - w, h.len() as int)
    } else {
        h
    }
}

/// Every other candle of the window has a strictly lower high than `mid`.
pub open spec fn is_pivot_high(h: Seq<Candle>, mid: int) -> bool {
    forall|i: int| 0 <= i < h.len() && i != mid ==> h[i].high@ < h[mid].high@
}

/// Every other candle of the window has a strictly higher low than `mid`.
pub open spec fn is_pivot_low(h: Seq<Candle>, mid: int) -> bool {
    forall|i: int| 0 <= i < h.len() && i != mid ==> h[i].low@ > h[mid].low@
}

/// Some level lies at this price.
pub open spec fn has_price(s: Seq<SwingLevel>, p: int) -> bool {
    exists|i: int| 0 <= i < s.len() && s[i].price@ == p
}

/// No two levels share a price.
pub open spec fn distinct_prices(s: Seq<SwingLevel>) -> bool {
    forall|i: int, j: int| 0 <= i < j < s.len() ==> s[i].price@ != s[j].price@
}

pub open spec fn level_from(c: Candle, kind: SwingKind, lookback: usize) -> SwingLevel {
    SwingLevel {
        price: if kind == SwingKind::High { c.high } else { c.low },
        formed_ts_ms: c.bucket_ms,
        kind,
        strength: lookback,
        age_candles: lookback,
    }
}

pub open spec fn aged(l: SwingLevel) -> SwingLevel {
    SwingLevel { age_candles: (l.age_candles + 1) as usize, ..l }
}

/// Levels one candle older, without those that reached the expiry age.
pub open spec fn kept_aged(s: Seq<SwingLevel>, expiry: usize) -> Seq<SwingLevel>
    decreases s.len(),
{
    if s.len() == 0 {
        seq![]
    } else {
        let prev = kept_aged(s.drop_last(), expiry);
        let l = aged(s.last());
        if l.age_candles < expiry {
            prev.push(l)
        } else {
            prev
        }
    }
}

/// The level a full window confirms, unless a live level already has its
/// price.
pub open spec fn confirmed(
    live: Seq<SwingLevel>,
    h: Seq<Candle>,
    lookback: usize,
    kind: SwingKind,
) -> Option<SwingLevel> {
    if h.len() == window_len(lookback) && (if kind == SwingKind::High {
        is_pivot_high(h, lookback as int)
    } else {
        is_pivot_low(h, lookback as int)
    }) && !has_price(live, level_from(h[lookback as int], kind, lookback).price@) {
        Some(level_from(h[lookback as int], kind, lookback))
    } else {
        None
    }
}

pub open spec fn with_opt(s: Seq<SwingLevel>, o: Option<SwingLevel>) -> Seq<SwingLevel> {
    match o {
        Some(l) => s.push(l),
        None => s,
    }
}

pub open spec fn level_ok(l: SwingLevel, kind: SwingKind) -> bool {
    &&& l.price.wf()
    &&& l.age_candles <= max_live_age()
    &&& l.kind == kind
}

pub open spec fn levels_ok(s: Seq<SwingLevel>, kind: SwingKind) -> bool {
    &&& forall|i: int| 0 <= i < s.len() ==> level_ok(#[trigger] s[i], kind)
    &&& distinct_prices(s)
}


/// One candle through the detector: the history rolls, live levels age
/// and expire, and a pivot confirmed at the middle of a full window
/// becomes a level unless one at its price is live; `r` holds the new
/// levels.
pub open spec fn swing_step(before: SwingDetector, after: SwingDetector, candle: Candle, r: Seq<SwingLevel>) -> bool {
    let h = after.history();
    let lb = before.lookback();
    let highs = kept_aged(before.highs(), before.expiry());
    let lows = kept_aged(before.lows(), before.expiry());
    let nh = confirmed(highs, h, lb, SwingKind::High);
    let nl = confirmed(lows, h, lb, SwingKind::Low);
    &&& after.lookback() == before.lookback()
    &&& after.expiry() == before.expiry()
    &&& h == trimmed(before.history().push(candle), window_len(lb))
    &&& after.highs() == with_opt(highs, nh)
    &&& after.lows() == with_opt(lows, nl)
    &&& r == swing_new_levels(before, after)
}

/// The levels a candle confirmed, highs first.
pub open spec fn swing_new_levels(before: SwingDetector, after: SwingDetector) -> Seq<SwingLevel> {
    let h = after.history();
    let lb = before.lookback();
    let nh = confirmed(kept_aged(before.highs(), before.expiry()), h, lb, SwingKind::High);
    let nl = confirmed(kept_aged(before.lows(), before.expiry()), h, lb, SwingKind::Low);
    with_opt(with_opt(seq![], nh), nl)
}

/// Keeps a rolling window of candles, finds pivot swing highs and lows and
/// tracks the live (unexpired) levels. A pivot is confirmed `lookback`
/// candles after it formed.
pub struct SwingDetector {
    pub lookback: usize,
    pub level_expiry_candles: usize,
    /// The last (2 * lookback + 1) candles.
    pub history: VecDeque<Candle>,
    pub live_highs: Vec<SwingLevel>,
    pub live_lows: Vec<SwingLevel>,
}

impl SwingDetector {
    pub open spec fn lookback(&self) -> usize {
        self.lookback
    }

    pub open spec fn expiry(&self) -> usize {
        self.level_expiry_candles
    }

    pub open spec fn history(&self) -> Seq<Candle> {
        self.history@
    }

    /// The live swing highs.
    pub open spec fn highs(&self) -> Seq<SwingLevel> {
        self.live_highs@
    }

    /// The live swing lows.
    pub open spec fn lows(&self) -> Seq<SwingLevel> {
        self.live_lows@
    }

    pub open spec fn wf(&self) -> bool {
        &&& 1 <= self.lookback() <= 1000
        &&& self.expiry() <= max_live_age()
        &&& self.history().len() <= window_len(self.lookback())
        &&& forall|i: int| 0 <= i < self.history().len() ==> (#[trigger] self.history()[i]).wf()
        &&& levels_ok(self.highs(), SwingKind::High)
        &&& levels_ok(self.lows(), SwingKind::Low)
    }

    pub fn new(cfg: &IntervalConfig) -> (d: Self)
        requires
            cfg.wf(),
        ensures
            d.wf(),
            d.lookback() == cfg.swing_lookback,
            d.expiry() == cfg.level_expiry_candles,
            d.history().len() == 0,
            d.highs().len() == 0,
            d.lows().len() == 0,
    {
        let capacity = cfg.swing_lookback * 2 + 2;
        SwingDetector {
            lookback: cfg.swing_lookback,
            level_expiry_candles: cfg.level_expiry_candles,
            history: VecDeque::with_capacity(capacity),
            live_highs: Vec::new(),
            live_lows: Vec::new(),
        }
    }

    /// Feeds a completed candle and returns the newly confirmed levels.
    pub fn push(&mut self, candle: Candle) -> (r: Vec<SwingLevel>)
        requires
            old(self).wf(),
            candle.wf(),
        ensures
            final(self).wf(),
            swing_step(*old(self), *final(self), candle, r@),
    {
        self.history.push_back(candle);
        let highs = age_levels(&self.live_highs, self.level_expiry_candles);
        let lows = age_levels(&self.live_lows, self.level_expiry_candles);
        proof {
            lemma_kept_aged_ok(self.live_highs@, self.level_expiry_candles, SwingKind::High);
            lemma_kept_aged_ok(self.live_lows@, self.level_expiry_candles, SwingKind::Low);
        }
        self.live_highs = highs;
        self.live_lows = lows;

        let window = self.lookback * 2 + 1;
        if self.history.len() > window {
            self.history.pop_front();
        }
        assert(self.history@ =~= trimmed(old(self).history@.push(candle), window as int));

        if self.history.len() < window {
            return Vec::new();
        }

        let mid = self.lookback;
        let pivot = self.history[mid];
        let (is_swing_high, is_swing_low) = pivot_flags(&self.history, mid);

        let mut new_levels: Vec<SwingLevel> = Vec::new();

        if is_swing_high {
            let is_dup = contains_price(&self.live_highs, &pivot.high);
            if !is_dup {
                let level = SwingLevel {
                    price: pivot.high,
                    formed_ts_ms: pivot.bucket_ms,
                    kind: SwingKind::High,
                    strength: self.lookback,
                    age_candles: self.lookback,
                };
                proof {
                    lemma_push_distinct(self.live_highs@, level);
                }
                self.live_highs.push(level);
                new_levels.push(level);
            }
        }
        if is_swing_low {
            let is_dup = contains_price(&self.live_lows, &pivot.low);
            if !is_dup {
                let level = SwingLevel {
                    price: pivot.low,
                    formed_ts_ms: pivot.bucket_ms,
                    kind: SwingKind::Low,
                    strength: self.lookback,
                    age_candles: self.lookback,
                };
                proof {
                    lemma_push_distinct(self.live_lows@, level);
                }
                self.live_lows.push(level);
                new_levels.push(level);
            }
        }
        proof {
            assert(new_levels@ =~= with_opt(
                with_opt(seq![], confirmed(highs@, self.history@, self.lookback, SwingKind::High)),
                confirmed(lows@, self.history@, self.lookback, SwingKind::Low),
            ));
        }
        new_levels
    }
}

/// Ages every level by one candle and drops those that reach the expiry age.
fn age_levels(levels: &Vec<SwingLevel>, expiry: usize) -> (r: Vec<SwingLevel>)
    requires
        expiry <= max_live_age(),
        forall|i: int| 0 <= i < levels@.len() ==> (#[trigger] levels@[i]).age_candles <= max_live_age(),
    ensures
        r@ == kept_aged(levels@, expiry),
{
    let mut kept: Vec<SwingLevel> = Vec::new();
    let mut i: usize = 0;
    while i < levels.len()
        invariant
            0 <= i <= levels@.len(),
            expiry <= max_live_age(),
            forall|k: int| 0 <= k < levels@.len() ==> (#[trigger] levels@[k]).age_candles <= max_live_age(),
            kept@ == kept_aged(levels@.take(i as int), expiry),
        decreases levels@.len() - i,
    {
        let mut l = levels[i];
        l.age_candles = l.age_candles + 1;
        assert(levels@.take(i + 1).drop_last() =~= levels@.take(i as int));
        if l.age_candles < expiry {
            kept.push(l);
        }
        i = i + 1;
    }
    assert(levels@.take(levels@.len() as int) =~= levels@);
    kept
}

/// Whether the middle candle of the window is a swing high and a swing low.
fn pivot_flags(history: &VecDeque<Candle>, mid: usize) -> (r: (bool, bool))
    requires
        mid < history@.len(),
        forall|i: int| 0 <= i < history@.len() ==> (#[trigger] history@[i]).wf(),
    ensures
        r.0 == is_pivot_high(history@, mid as int),
        r.1 == is_pivot_low(history@, mid as int),
{
    let pivot = history[mid];
    let mut high = true;
    let mut low = true;
    let mut i: usize = 0;
    while i < history.len()
        invariant
            0 <= i <= history@.len(),
            mid < history@.len(),
            pivot == history@[mid as int],
            forall|k: int| 0 <= k < history@.len() ==> (#[trigger] history@[k]).wf(),
            high == forall|k: int| 0 <= k < i && k != mid ==> history@[k].high@ < pivot.high@,
            low == forall|k: int| 0 <= k < i && k != mid ==> history@[k].low@ > pivot.low@,
        decreases history@.len() - i,
    {
        if i != mid {
            let c = history[i];
            if !dec_lt(&c.high, &pivot.high) {
                high = false;
            }
            if !dec_lt(&pivot.low, &c.low) {
                low = false;
            }
        }
        i = i + 1;
    }
    (high, low)
}

/// Whether some level lies at the price `p`.
fn contains_price(levels: &Vec<SwingLevel>, p: &Dec) -> (r: bool)
    requires
        p.wf(),
        forall|i: int| 0 <= i < levels@.len() ==> (#[trigger] levels@[i]).price.wf(),
    ensures
        r == has_price(levels@, p@),
{
    let mut i: usize = 0;
    while i < levels.len()
        invariant
            0 <= i <= levels@.len(),
            p.wf(),
            forall|k: int| 0 <= k < levels@.len() ==> (#[trigger] levels@[k]).price.wf(),
            forall|k: int| 0 <= k < i ==> levels@[k].price@ != p@,
        decreases levels@.len() - i,
    {
        if dec_eq(&levels[i].price, p) {
            return true;
        }
        i = i + 1;
    }
    false
}

proof fn lemma_kept_aged_ok(s: Seq<SwingLevel>, expiry: usize, kind: SwingKind)
    requires
        levels_ok(s, kind),
        expiry <= max_live_age(),
    ensures
        levels_ok(kept_aged(s, expiry), kind),
        forall|i: int|
            0 <= i < kept_aged(s, expiry).len() ==> has_price(s, #[trigger] kept_aged(s, expiry)[i].price@),
    decreases s.len(),
{
    if s.len() > 0 {
        let d = s.drop_last();
        assert(levels_ok(d, kind)) by {
            assert forall|i: int, j: int| 0 <= i < j < d.len() implies d[i].price@ != d[j].price@ by {
                assert(s[i] == d[i] && s[j] == d[j]);
            }
            assert forall|i: int| 0 <= i < d.len() implies level_ok(#[trigger] d[i], kind) by {
                assert(s[i] == d[i]);
            }
        }
        lemma_kept_aged_ok(d, expiry, kind);
        let prev = kept_aged(d, expiry);
        let l = aged(s.last());
        if l.age_candles < expiry {
            let k = prev.push(l);
            assert forall|i: int| 0 <= i < k.len() implies has_price(s, #[trigger] k[i].price@) by {
                if i < prev.len() {
                    assert(has_price(d, prev[i].price@));
                    let w = choose|w: int| 0 <= w < d.len() && d[w].price@ == prev[i].price@;
                    assert(s[w] == d[w]);
                } else {
                    assert(s[s.len() - 1].price@ == k[i].price@);
                }
            }
            assert forall|i: int, j: int| 0 <= i < j < k.len() implies k[i].price@ != k[j].price@ by {
                if j == k.len() - 1 {
                    assert(has_price(d, prev[i].price@));
                    let w = choose|w: int| 0 <= w < d.len() && d[w].price@ == prev[i].price@;
                    assert(s[w] == d[w]);
                    assert(s[w].price@ != s[s.len() - 1].price@);
                } else {
                    assert(k[i] == prev[i] && k[j] == prev[j]);
                }
            }
            assert forall|i: int| 0 <= i < k.len() implies level_ok(#[trigger] k[i], kind) by {
                if i < prev.len() {
                    assert(k[i] == prev[i]);
                }
            }
        } else {
            assert forall|i: int|
                0 <= i < prev.len() implies has_price(s, #[trigger] prev[i].price@) by {
                assert(has_price(d, prev[i].price@));
                let w = choose|w: int| 0 <= w < d.len() && d[w].price@ == prev[i].price@;
                assert(s[w] == d[w]);
            }
        }
    }
}

proof fn lemma_push_distinct(s: Seq<SwingLevel>, l: SwingLevel)
    requires
        distinct_prices(s),
        !has_price(s, l.price@),
    ensures
        distinct_prices(s.push(l)),
{
    assert forall|i: int, j: int| 0 <= i < j < s.push(l).len() implies s.push(l)[i].price@
        != s.push(l)[j].price@ by {
        if j == s.len() {
            assert(s.push(l)[i] == s[i]);
        } else {
            assert(s.push(l)[i] == s[i] && s.push(l)[j] == s[j]);
        }
    }
}

/// Aging keeps exactly the levels younger than the expiry: every kept
/// level has aged by one candle and is below the expiry age.
pub proof fn law_aged_levels_unexpired(s: Seq<SwingLevel>, expiry: usize)
    ensures
        forall|i: int| 0 <= i < kept_aged(s, expiry).len() ==> (#[trigger] kept_aged(s, expiry)[i]).age_candles
            < expiry,
        kept_aged(s, expiry).len() <= s.len(),
    decreases s.len(),
{
    if s.len() > 0 {
        law_aged_levels_unexpired(s.drop_last(), expiry);
    }
}

/// After a candle, the live highs and lows never hold two levels at one
/// price, and each level is of its own kind.
pub proof fn law_live_levels_distinct(before: SwingDetector, after: SwingDetector, candle: Candle, r: Seq<SwingLevel>)
    requires
        after.wf(),
        swing_step(before, after, candle, r),
    ensures
        distinct_prices(after.highs()),
        distinct_prices(after.lows()),
        forall|i: int| 0 <= i < after.highs().len() ==> (#[trigger] after.highs()[i]).kind == SwingKind::High,
        forall|i: int| 0 <= i < after.lows().len() ==> (#[trigger] after.lows()[i]).kind == SwingKind::Low,
{
    assert forall|i: int| 0 <= i < after.highs().len() implies (#[trigger] after.highs()[i]).kind
        == SwingKind::High by {
        assert(level_ok(after.highs()[i], SwingKind::High));
    }
    assert forall|i: int| 0 <= i < after.lows().len() implies (#[trigger] after.lows()[i]).kind
        == SwingKind::Low by {
        assert(level_ok(after.lows()[i], SwingKind::Low));
    }
}

/// Swing levels come with a lag of `lookback` candles: a level that a
/// candle confirms formed at the middle of a full window that ends with
/// that candle, so `lookback` later candles were seen, and every other
/// candle of the window has a strictly lower high (for a high) or a
/// strictly higher low (for a low). The level starts `lookback` candles
/// old, with a strength of `lookback`.
pub proof fn law_swing_lag(before: SwingDetector, after: SwingDetector, candle: Candle, r: Seq<SwingLevel>)
    requires
        swing_step(before, after, candle, r),
    ensures
        forall|k: int| 0 <= k < r.len() ==> {
            let l = #[trigger] r[k];
            let h = after.history();
            let lb = before.lookback() as int;
            &&& h.len() == window_len(before.lookback())
            &&& h[h.len() - 1] == candle
            &&& l.formed_ts_ms == h[lb].bucket_ms
            &&& l.age_candles == before.lookback()
            &&& l.strength == before.lookback()
            &&& l.kind == SwingKind::High ==> is_pivot_high(h, lb) && l.price == h[lb].high
            &&& l.kind == SwingKind::Low ==> is_pivot_low(h, lb) && l.price == h[lb].low
        },
{
    let h = after.history();
    let lb = before.lookback();
    let nh = confirmed(kept_aged(before.highs(), before.expiry()), h, lb, SwingKind::High);
    let nl = confirmed(kept_aged(before.lows(), before.expiry()), h, lb, SwingKind::Low);
    let p = before.history().push(candle);
    if r.len() > 0 {
        assert(h.len() == window_len(lb));
        if p.len() > window_len(lb) {
            assert(h == p.subrange(p.len() - window_len(lb), p.len() as int));
            assert(h[h.len() - 1] == p[p.len() - 1]);
        } else {
            assert(h == p);
        }
        assert(h[h.len() - 1] == candle);
    }
    assert forall|k: int| 0 <= k < r.len() implies {
        let l = #[trigger] r[k];
        &&& l.formed_ts_ms == h[lb as int].bucket_ms
        &&& l.age_candles == lb
        &&& l.strength == lb
        &&& l.kind == SwingKind::High ==> is_pivot_high(h, lb as int) && l.price == h[lb as int].high
        &&& l.kind == SwingKind::Low ==> is_pivot_low(h, lb as int) && l.price == h[lb as int].low
    } by {
        let first = with_opt(seq![], nh);
        if k < first.len() {
            assert(r[k] == nh.unwrap());
        } else {
            assert(r[k] == nl.unwrap());
        }
    }
}


/// A confirmed swing high lies strictly above the high of every other
/// candle of the full window that confirms it, and a confirmed swing low
/// strictly below every other low.
pub proof fn law_swing_levels_strict(before: SwingDetector, after: SwingDetector, candle: Candle, r: Seq<SwingLevel>)
    requires
        swing_step(before, after, candle, r),
    ensures
        forall|k: int| 0 <= k < r.len() ==> {
            let l = #[trigger] r[k];
            let h = after.history();
            let lb = before.lookback() as int;
            &&& l.kind == SwingKind::High ==> forall|i: int| 0 <= i < h.len() && i != lb ==> h[i].high@ < l.price@
            &&& l.kind == SwingKind::Low ==> forall|i: int| 0 <= i < h.len() && i != lb ==> h[i].low@ > l.price@
        },
{
    law_swing_lag(before, after, candle, r);
    assert forall|k: int| 0 <= k < r.len() implies {
        let l = #[trigger] r[k];
        let h = after.history();
        let lb = before.lookback() as int;
        &&& l.kind == SwingKind::High ==> forall|i: int| 0 <= i < h.len() && i != lb ==> h[i].high@ < l.price@
        &&& l.kind == SwingKind::Low ==> forall|i: int| 0 <= i < h.len() && i != lb ==> h[i].low@ > l.price@
    } by {
        let l = r[k];
        let h = after.history();
        let lb = before.lookback() as int;
        if l.kind == SwingKind::High {
            assert(is_pivot_high(h, lb));
            assert forall|i: int| 0 <= i < h.len() && i != lb implies h[i].high@ < l.price@ by {
                assert(h[i].high@ < h[lb].high@);
            }
        }
        if l.kind == SwingKind::Low {
            assert(is_pivot_low(h, lb));
            assert forall|i: int| 0 <= i < h.len() && i != lb implies h[i].low@ > l.price@ by {
                assert(h[i].low@ > h[lb].low@);
            }
        }
    }
}
} // verus!
