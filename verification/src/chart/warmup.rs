//! How many candles a chart fetches before showing the visible range.
//!
//! Charts fetch a hidden pre-roll so that moving indicators settle before
//! the first visible bar: for EMA/SMA families five times the longest
//! period, enough for a 200 EMA to take a trading-grade shape.

use vstd::prelude::*;
use vstd::string::StringExecFns;
use crate::db::trades::OhlcvRow;
use crate::text::text_eq;

verus! {

/// The indicators a chart shows, which decide how deep the warm-up goes.
#[derive(Clone, Debug)]
pub struct IndicatorProfile {
    pub ema_periods: Vec<usize>,
    pub sma_periods: Vec<usize>,
    pub rolling_volume_periods: Vec<usize>,
    pub market_structure_lookbacks: Vec<usize>,
    pub orb_window_bars: Option<usize>,
    pub vwap_sessions: bool,
    pub multi_symbol_context_bars: Vec<usize>,
}

/// The largest value, or zero when there is none.
pub open spec fn max_or_zero(s: Seq<usize>) -> int
    decreases s.len(),
{
    if s.len() == 0 {
        0
    } else {
        let m = max_or_zero(s.drop_last());
        if s.last() > m {
            s.last() as int
        } else {
            m
        }
    }
}

pub open spec fn max2(a: int, b: int) -> int {
    if a >= b {
        a
    } else {
        b
    }
}

/// `n` times `k`, capped at `usize::MAX`.
pub open spec fn saturating_times(n: int, k: int) -> int {
    if n * k > usize::MAX {
        usize::MAX as int
    } else {
        n * k
    }
}

/// Bars needed for the profile's indicators to settle: five times the
/// longest moving-average period (capped at `usize::MAX`), at least the
/// longest feature lookback, the opening-range window, and a full session
/// (390 bars) when VWAP is shown.
pub open spec fn stabilization(p: IndicatorProfile) -> int {
    let period = max2(max_or_zero(p.ema_periods@), max_or_zero(p.sma_periods@));
    let feature = max2(
        max2(max_or_zero(p.rolling_volume_periods@), max_or_zero(p.market_structure_lookbacks@)),
        max_or_zero(p.multi_symbol_context_bars@),
    );
    let orb = match p.orb_window_bars {
        Some(n) => n as int,
        None => 0,
    };
    let vwap = if p.vwap_sessions {
        390
    } else {
        0
    };
    max2(max2(max2(saturating_times(period, 5), feature), orb), vwap)
}

/// The largest value of `v`, or zero.
fn largest(v: &Vec<usize>) -> (r: usize)
    ensures
        r == max_or_zero(v@),
{
    let mut m: usize = 0;
    let mut i: usize = 0;
    while i < v.len()
        invariant
            0 <= i <= v@.len(),
            m == max_or_zero(v@.take(i as int)),
        decreases v@.len() - i,
    {
        assert(v@.take(i + 1).drop_last() =~= v@.take(i as int));
        if v[i] > m {
            m = v[i];
        }
        i = i + 1;
    }
    assert(v@.take(v@.len() as int) =~= v@);
    m
}

fn max_usize(a: usize, b: usize) -> (r: usize)
    ensures
        r == max2(a as int, b as int),
{
    if a >= b {
        a
    } else {
        b
    }
}

impl IndicatorProfile {
    /// Bars of history the indicators need before the first visible bar.
    pub fn stabilization_bars(&self) -> (r: usize)
        ensures
            r == stabilization(*self),
    {
        let max_period = max_usize(largest(&self.ema_periods), largest(&self.sma_periods));
        let indicator_stabilization = if max_period > usize::MAX / 5 {
            usize::MAX
        } else {
            max_period * 5
        };
        let feature_lookback = max_usize(
            max_usize(largest(&self.rolling_volume_periods), largest(&self.market_structure_lookbacks)),
            largest(&self.multi_symbol_context_bars),
        );
        let orb_lookback = match self.orb_window_bars {
            Some(n) => n,
            None => 0,
        };
        let vwap_pre_roll: usize = if self.vwap_sessions {
            390
        } else {
            0
        };
        max_usize(
            max_usize(max_usize(indicator_stabilization, feature_lookback), orb_lookback),
            vwap_pre_roll,
        )
    }
}

/// The warm-up floor of one timeframe, which keeps the chart useful even
/// without a visible-range hint.
#[derive(Clone, Debug)]
pub struct TimeframeWarmupConfig {
    pub interval: String,
    pub floor_bars: usize,
}

#[derive(Clone, Debug)]
pub struct ChartWarmupConfig {
    pub default_visible_bars: usize,
    pub max_remote_bars: usize,
    pub indicator_profile: IndicatorProfile,
    pub per_timeframe: Vec<TimeframeWarmupConfig>,
}

/// Index of the first policy for `interval`.
pub open spec fn policy_index(ps: Seq<TimeframeWarmupConfig>, interval: Seq<char>) -> Option<int>
    decreases ps.len(),
{
    if ps.len() == 0 {
        None
    } else {
        match policy_index(ps.drop_last(), interval) {
            Some(i) => Some(i),
            None => if ps.last().interval@ == interval {
                Some(ps.len() - 1)
            } else {
                None
            },
        }
    }
}

pub proof fn lemma_policy_index_bounds(ps: Seq<TimeframeWarmupConfig>, interval: Seq<char>)
    ensures
        policy_index(ps, interval) matches Some(i) ==> 0 <= i < ps.len() && ps[i].interval@ == interval,
    decreases ps.len(),
{
    if ps.len() > 0 {
        lemma_policy_index_bounds(ps.drop_last(), interval);
    }
}

/// A request for a chart warm-up.
#[derive(Clone, Copy, Debug)]
pub struct WarmupRequest<'a> {
    pub interval: &'a str,
    pub visible_bars: Option<usize>,
    pub local_candle_count: usize,
}

/// How many candles a chart needs and whether local ones suffice.
#[derive(Clone, Debug)]
pub struct WarmupPlan {
    pub interval: String,
    pub visible_bars: usize,
    pub visible_range_bars: usize,
    pub stabilization_bars: usize,
    pub floor_bars: usize,
    pub requested_bars: usize,
    pub remote_fetch_bars: usize,
    pub needs_remote: bool,
}

/// Why no plan could be made.
#[derive(Clone, Debug)]
pub enum WarmupError {
    UnsupportedInterval(String),
}

impl WarmupError {
    /// The message shown for the error.
    pub fn message(&self) -> (r: String)
        ensures
            match self {
                WarmupError::UnsupportedInterval(i) => r@ == "unsupported warm-up interval: "@ + i@,
            },
    {
        match self {
            WarmupError::UnsupportedInterval(i) => "unsupported warm-up interval: ".to_owned().concat(i.as_str()),
        }
    }
}

/// The plan for a request of a supported interval: the visible bars (the
/// configured default when not given), twice that as a scrolling range
/// (capped at `usize::MAX`), the indicators' stabilization, and the
/// largest of those and the timeframe floor as the bars requested; remote
/// candles are fetched, at most `max_remote_bars` of them, when fewer
/// local candles are at hand.
pub open spec fn plan_for(cfg: ChartWarmupConfig, floor: int, request: WarmupRequest, p: WarmupPlan) -> bool {
    let visible = match request.visible_bars {
        Some(v) => v as int,
        None => cfg.default_visible_bars as int,
    };
    let range = saturating_times(visible, 2);
    let stab = stabilization(cfg.indicator_profile);
    let requested = max2(max2(floor, range), stab);
    &&& p.interval@ == request.interval@
    &&& p.visible_bars == visible
    &&& p.visible_range_bars == range
    &&& p.stabilization_bars == stab
    &&& p.floor_bars == floor
    &&& p.requested_bars == requested
    &&& p.remote_fetch_bars == (if requested <= cfg.max_remote_bars { requested } else { cfg.max_remote_bars as int })
    &&& p.needs_remote == (request.local_candle_count < requested)
}

impl ChartWarmupConfig {
    /// The warm-up policy of an interval, if it has one.
    pub fn policy_for(&self, interval: &str) -> (r: Option<&TimeframeWarmupConfig>)
        ensures
            match policy_index(self.per_timeframe@, interval@) {
                Some(i) => r == Some(&self.per_timeframe@[i]),
                None => r is None,
            },
    {
        let mut i: usize = 0;
        while i < self.per_timeframe.len()
            invariant
                0 <= i <= self.per_timeframe@.len(),
                policy_index(self.per_timeframe@.take(i as int), interval@) is None,
            decreases self.per_timeframe@.len() - i,
        {
            assert(self.per_timeframe@.take(i + 1).drop_last() =~= self.per_timeframe@.take(i as int));
            if text_eq(self.per_timeframe[i].interval.as_str(), interval) {
                proof {
                    lemma_policy_prefix(self.per_timeframe@, interval@, i + 1);
                }
                return Some(&self.per_timeframe[i]);
            }
            i = i + 1;
        }
        assert(self.per_timeframe@.take(self.per_timeframe@.len() as int) =~= self.per_timeframe@);
        None
    }

    /// The warm-up plan for a request, or an error for an interval without
    /// a policy.
    pub fn build_plan(&self, request: WarmupRequest) -> (r: Result<WarmupPlan, WarmupError>)
        ensures
            match policy_index(self.per_timeframe@, request.interval@) {
                Some(i) => r matches Ok(p) && plan_for(
                    *self,
                    self.per_timeframe@[i].floor_bars as int,
                    request,
                    p,
                ),
                None => r matches Err(WarmupError::UnsupportedInterval(s)) && s@ == request.interval@,
            },
    {
        let timeframe = match self.policy_for(request.interval) {
            Some(t) => t,
            None => {
                return Err(WarmupError::UnsupportedInterval(request.interval.to_owned()));
            },
        };
        let visible_bars = match request.visible_bars {
            Some(v) => v,
            None => self.default_visible_bars,
        };
        let visible_range_bars = if visible_bars > usize::MAX / 2 {
            usize::MAX
        } else {
            visible_bars * 2
        };
        let stabilization_bars = self.indicator_profile.stabilization_bars();
        let requested_bars = max_usize(max_usize(timeframe.floor_bars, visible_range_bars), stabilization_bars);
        let remote_fetch_bars = if requested_bars <= self.max_remote_bars {
            requested_bars
        } else {
            self.max_remote_bars
        };
        let needs_remote = request.local_candle_count < requested_bars;
        Ok(WarmupPlan {
            interval: request.interval.to_owned(),
            visible_bars,
            visible_range_bars,
            stabilization_bars,
            floor_bars: timeframe.floor_bars,
            requested_bars,
            remote_fetch_bars,
            needs_remote,
        })
    }
}

/// A prefix that contains a match finds that same first match.
proof fn lemma_policy_prefix(ps: Seq<TimeframeWarmupConfig>, interval: Seq<char>, n: int)
    requires
        0 < n <= ps.len(),
        policy_index(ps.take(n - 1), interval) is None,
        ps[n - 1].interval@ == interval,
    ensures
        policy_index(ps, interval) == Some(n - 1),
    decreases ps.len(),
{
    assert(ps.take(n).drop_last() =~= ps.take(n - 1));
    if n < ps.len() {
        assert(ps.drop_last().take(n - 1) =~= ps.take(n - 1));
        lemma_policy_prefix(ps.drop_last(), interval, n);
    } else {
        assert(ps.take(n - 1) =~= ps.drop_last());
    }
}

/// The rows keyed by bucket start, later rows replacing earlier ones.
pub open spec fn by_bucket(rows: Seq<OhlcvRow>, m: Map<i64, OhlcvRow>) -> Map<i64, OhlcvRow>
    decreases rows.len(),
{
    if rows.len() == 0 {
        m
    } else {
        by_bucket(rows.drop_last(), m).insert(rows.last().bucket_ms, rows.last())
    }
}

/// Snapshot candles keyed by bucket, overwritten by local candles of the
/// same bucket.
pub open spec fn merged_buckets(snapshot: Seq<OhlcvRow>, local: Seq<OhlcvRow>) -> Map<i64, OhlcvRow> {
    by_bucket(local, by_bucket(snapshot, Map::empty()))
}

/// Every row of the map is stored under its own bucket.
pub open spec fn keyed_by_bucket(m: Map<i64, OhlcvRow>) -> bool {
    forall|k: i64| #[trigger] m.contains_key(k) ==> m[k].bucket_ms == k
}

proof fn lemma_by_bucket_keyed(rows: Seq<OhlcvRow>, m: Map<i64, OhlcvRow>)
    requires
        keyed_by_bucket(m),
    ensures
        keyed_by_bucket(by_bucket(rows, m)),
    decreases rows.len(),
{
    if rows.len() > 0 {
        lemma_by_bucket_keyed(rows.drop_last(), m);
    }
}

/// Bucket starts are totally ordered, as `BTreeMap` needs.
spec fn keys_ordered() -> bool {
    vstd::laws_cmp::obeys_cmp::<i64>()
}

proof fn lemma_keys_ordered()
    ensures
        keys_ordered(),
{
    broadcast use vstd::laws_cmp::group_laws_cmp;

    assert(vstd::laws_cmp::obeys_cmp::<i64>());
}

/// Inserts every row under its bucket.
fn insert_rows(merged: &mut std::collections::BTreeMap<i64, OhlcvRow>, rows: Vec<OhlcvRow>)
    ensures
        final(merged)@ == by_bucket(rows@, old(merged)@),
{
    let ghost start = merged@;
    let mut i: usize = 0;
    proof {
        lemma_keys_ordered();
    }
    while i < rows.len()
        invariant
            0 <= i <= rows@.len(),
            merged@ == by_bucket(rows@.take(i as int), start),
            keys_ordered(),
        decreases rows@.len() - i,
    {
        assert(rows@.take(i + 1).drop_last() =~= rows@.take(i as int));
        let c = rows[i];
        merged.insert(c.bucket_ms, c);
        i = i + 1;
    }
    assert(rows@.take(rows@.len() as int) =~= rows@);
}

/// Combines exchange candles with locally aggregated ones: one candle per
/// bucket, in increasing bucket order, a local candle winning over an
/// exchange candle of the same bucket (and a later candle over an earlier
/// one from the same source).
pub fn merge_candles(snapshot: Vec<OhlcvRow>, local: Vec<OhlcvRow>) -> (r: Vec<OhlcvRow>)
    ensures
        ({
            let m = merged_buckets(snapshot@, local@);
            &&& r@.len() == m.dom().len()
            &&& forall|i: int, j: int| 0 <= i < j < r@.len() ==> r@[i].bucket_ms < r@[j].bucket_ms
            &&& forall|i: int| 0 <= i < r@.len() ==> #[trigger] m.contains_key(r@[i].bucket_ms) && m[r@[i].bucket_ms] == r@[i]
            &&& forall|k: i64| #[trigger] m.contains_key(k) ==> exists|i: int| 0 <= i < r@.len() && r@[i].bucket_ms == k
        }),
{
    broadcast use vstd::std_specs::btree::group_btree_axioms;
    let mut merged: std::collections::BTreeMap<i64, OhlcvRow> = std::collections::BTreeMap::new();
    insert_rows(&mut merged, snapshot);
    insert_rows(&mut merged, local);
    proof {
        lemma_by_bucket_keyed(snapshot@, Map::empty());
        lemma_by_bucket_keyed(local@, by_bucket(snapshot@, Map::empty()));
        lemma_keys_ordered();
    }
    let ghost m = merged@;
    let vals = merged.values();
    let ghost vr = vstd::std_specs::iter::IteratorSpec::remaining(&vals);
    let mut out: Vec<OhlcvRow> = Vec::new();
    for v in it: vals
        invariant
            m == merged@,
            keyed_by_bucket(m),
            it.seq() == vr,
            out@.len() == it.index(),
            forall|k: int| 0 <= k < it.index() ==> out@[k] == *it.seq()[k],
        ensures
            out@.len() == vr.len(),
            forall|k: int| 0 <= k < vr.len() ==> out@[k] == *vr[k],
    {
        out.push(*v);
    }
    proof {
        let ks = choose|ks: Seq<i64>|
            {
                &&& vstd::std_specs::btree::increasing_seq(ks)
                &&& ks.to_set() == m.dom()
                &&& ks.no_duplicates()
                &&& vr == ks.map(|i: int, k: i64| &m[k])
            };
        assert(vr.len() == ks.len());
        assert forall|i: int| 0 <= i < out@.len() implies #[trigger] m.contains_key(out@[i].bucket_ms)
            && m[out@[i].bucket_ms] == out@[i] && out@[i].bucket_ms == ks[i] by {
            assert(ks.to_set().contains(ks[i]));
            assert(out@[i] == *vr[i]);
        }
        assert forall|i: int, j: int| 0 <= i < j < out@.len() implies out@[i].bucket_ms < out@[j].bucket_ms by {
            assert(m.contains_key(out@[i].bucket_ms));
            assert(m.contains_key(out@[j].bucket_ms));
            lemma_keys_ordered();
            assert(vstd::std_specs::cmp::OrdSpec::cmp_spec(&ks[i], &ks[j]) is Less);
        }
        ks.unique_seq_to_set();
        assert forall|k: i64| #[trigger] m.contains_key(k) implies exists|i: int|
            0 <= i < out@.len() && out@[i].bucket_ms == k by {
            assert(ks.to_set().contains(k));
            let i = choose|i: int| 0 <= i < ks.len() && ks[i] == k;
            assert(m.contains_key(out@[i].bucket_ms));
        }
    }
    out
}

/// The indicators settle: the pre-roll covers five times every EMA and SMA
/// period (short of `usize::MAX`), every feature lookback, the opening
/// range, and a full session when VWAP is shown.
pub proof fn law_stabilization_covers(p: IndicatorProfile)
    ensures
        forall|i: int| 0 <= i < p.ema_periods@.len() ==> stabilization(p) >= saturating_times(
            #[trigger] p.ema_periods@[i] as int,
            5,
        ),
        forall|i: int| 0 <= i < p.sma_periods@.len() ==> stabilization(p) >= saturating_times(
            #[trigger] p.sma_periods@[i] as int,
            5,
        ),
        forall|i: int| 0 <= i < p.rolling_volume_periods@.len() ==> stabilization(p) >= #[trigger] p.rolling_volume_periods@[i],
        p.orb_window_bars matches Some(n) ==> stabilization(p) >= n,
        p.vwap_sessions ==> stabilization(p) >= 390,
{
    lemma_max_or_zero_bounds(p.ema_periods@);
    lemma_max_or_zero_bounds(p.sma_periods@);
    lemma_max_or_zero_bounds(p.rolling_volume_periods@);
    let period = max2(max_or_zero(p.ema_periods@), max_or_zero(p.sma_periods@));
    assert forall|i: int| 0 <= i < p.ema_periods@.len() implies stabilization(p) >= saturating_times(
        #[trigger] p.ema_periods@[i] as int,
        5,
    ) by {
        lemma_saturating_monotone(p.ema_periods@[i] as int, period);
    }
    assert forall|i: int| 0 <= i < p.sma_periods@.len() implies stabilization(p) >= saturating_times(
        #[trigger] p.sma_periods@[i] as int,
        5,
    ) by {
        lemma_saturating_monotone(p.sma_periods@[i] as int, period);
    }
}

proof fn lemma_max_or_zero_bounds(s: Seq<usize>)
    ensures
        forall|i: int| 0 <= i < s.len() ==> max_or_zero(s) >= #[trigger] s[i],
        max_or_zero(s) >= 0,
    decreases s.len(),
{
    if s.len() > 0 {
        lemma_max_or_zero_bounds(s.drop_last());
        assert forall|i: int| 0 <= i < s.len() implies max_or_zero(s) >= #[trigger] s[i] by {
            if i < s.len() - 1 {
                assert(s[i] == s.drop_last()[i]);
            }
        }
    }
}

proof fn lemma_saturating_monotone(a: int, b: int)
    requires
        0 <= a <= b,
    ensures
        saturating_times(a, 5) <= saturating_times(b, 5),
{
}

/// The largest value of a prefix is at most the largest of the whole.
proof fn lemma_max_or_zero_prefix(s: Seq<usize>, n: int)
    requires
        0 <= n <= s.len(),
    ensures
        max_or_zero(s.take(n)) <= max_or_zero(s),
    decreases s.len(),
{
    if n < s.len() {
        assert(s.drop_last().take(n) =~= s.take(n));
        lemma_max_or_zero_prefix(s.drop_last(), n);
    } else {
        assert(s.take(n) =~= s);
    }
}

/// The largest value of a list grows, if at all, when the list is
/// extended.
proof fn lemma_max_or_zero_extended(s: Seq<usize>, t: Seq<usize>)
    requires
        s.is_prefix_of(t),
    ensures
        max_or_zero(s) <= max_or_zero(t),
{
    assert(t.take(s.len() as int) =~= s);
    lemma_max_or_zero_prefix(t, s.len() as int);
}

/// Adding periods or lookbacks to any of a profile's lists, widening or
/// turning on the opening-range window, or turning on VWAP never lowers
/// the bars the indicators need to settle.
pub proof fn law_stabilization_monotone(p: IndicatorProfile, q: IndicatorProfile)
    requires
        p.ema_periods@.is_prefix_of(q.ema_periods@),
        p.sma_periods@.is_prefix_of(q.sma_periods@),
        p.rolling_volume_periods@.is_prefix_of(q.rolling_volume_periods@),
        p.market_structure_lookbacks@.is_prefix_of(q.market_structure_lookbacks@),
        p.multi_symbol_context_bars@.is_prefix_of(q.multi_symbol_context_bars@),
        p.orb_window_bars matches Some(a) ==> q.orb_window_bars matches Some(b) && a <= b,
        p.vwap_sessions ==> q.vwap_sessions,
    ensures
        stabilization(q) >= stabilization(p),
{
    lemma_max_or_zero_extended(p.ema_periods@, q.ema_periods@);
    lemma_max_or_zero_extended(p.sma_periods@, q.sma_periods@);
    lemma_max_or_zero_extended(p.rolling_volume_periods@, q.rolling_volume_periods@);
    lemma_max_or_zero_extended(p.market_structure_lookbacks@, q.market_structure_lookbacks@);
    lemma_max_or_zero_extended(p.multi_symbol_context_bars@, q.multi_symbol_context_bars@);
}

/// A plan never fetches more than the remote cap or than it requested, it
/// requests at least the timeframe floor and the indicators' pre-roll, and
/// it goes remote exactly when local candles fall short.
pub proof fn law_plan_bounds(cfg: ChartWarmupConfig, floor: int, request: WarmupRequest, p: WarmupPlan)
    requires
        plan_for(cfg, floor, request, p),
    ensures
        p.remote_fetch_bars <= cfg.max_remote_bars,
        p.remote_fetch_bars <= p.requested_bars,
        p.requested_bars >= floor,
        p.requested_bars >= p.stabilization_bars,
        p.requested_bars >= p.visible_range_bars,
        p.needs_remote <==> request.local_candle_count < p.requested_bars,
{
}

/// Local candles win: a local candle that no later local candle replaces
/// is the merged candle of its bucket.
pub proof fn law_local_wins(snapshot: Seq<OhlcvRow>, local: Seq<OhlcvRow>, i: int)
    requires
        0 <= i < local.len(),
        forall|j: int| i < j < local.len() ==> (#[trigger] local[j]).bucket_ms != local[i].bucket_ms,
    ensures
        merged_buckets(snapshot, local).contains_key(local[i].bucket_ms),
        merged_buckets(snapshot, local)[local[i].bucket_ms] == local[i],
{
    lemma_last_write_wins(local, by_bucket(snapshot, Map::empty()), i);
}

proof fn lemma_last_write_wins(rows: Seq<OhlcvRow>, m: Map<i64, OhlcvRow>, i: int)
    requires
        0 <= i < rows.len(),
        forall|j: int| i < j < rows.len() ==> (#[trigger] rows[j]).bucket_ms != rows[i].bucket_ms,
    ensures
        by_bucket(rows, m).contains_key(rows[i].bucket_ms),
        by_bucket(rows, m)[rows[i].bucket_ms] == rows[i],
    decreases rows.len(),
{
    if i < rows.len() - 1 {
        let prev = rows.drop_last();
        assert forall|j: int| i < j < prev.len() implies (#[trigger] prev[j]).bucket_ms != prev[i].bucket_ms by {
            assert(prev[j] == rows[j]);
        }
        lemma_last_write_wins(prev, m, i);
        assert(rows.last() == rows[rows.len() - 1]);
    }
}
} // verus!
