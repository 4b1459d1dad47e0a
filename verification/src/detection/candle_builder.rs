//! Aggregation of trades into interval-aligned OHLCV candles.

use vstd::prelude::*;
use crate::decimal::{
    Dec, dec_add, dec_lt, add_fits, sum_of, sum_opt, checked_sum,
};
use crate::ingester::parser::Trade;

verus! {

/// A completed OHLCV candle with its count of liquidation trades.
#[derive(Clone, Copy, Debug)]
pub struct Candle {
    /// Interval-aligned open time.
    pub bucket_ms: i64,
    pub open: Dec,
    pub high: Dec,
    pub low: Dec,
    pub close: Dec,
    pub volume: Dec,
    pub trade_count: u32,
    /// Trades in this candle flagged as liquidations.
    pub liq_count: u32,
}

impl Candle {
    pub open spec fn wf(&self) -> bool {
        &&& self.open.wf()
        &&& self.high.wf()
        &&& self.low.wf()
        &&& self.close.wf()
        &&& self.volume.wf()
    }

    /// Whether every decimal of the candle is valid.
    pub fn is_wf(&self) -> (r: bool)
        ensures
            r == self.wf(),
    {
        self.open.is_wf() && self.high.is_wf() && self.low.is_wf() && self.close.is_wf() && self.volume.is_wf()
    }

    /// The low is the least and the high the greatest of the four prices.
    pub open spec fn ordered(&self) -> bool {
        &&& self.low@ <= self.open@ <= self.high@
        &&& self.low@ <= self.close@ <= self.high@
    }
}

/// Rust's integer division, which rounds toward zero.
pub open spec fn trunc_div(a: int, b: int) -> int {
    if a >= 0 {
        a / b
    } else {
        -((-a) / b)
    }
}

/// The open time of the interval that contains `ts`.
pub open spec fn bucket_of(ts: i64, interval_ms: i64) -> int {
    trunc_div(ts as int, interval_ms as int) * interval_ms
}

/// The candle a trade opens.
pub open spec fn started(bucket: i64, trade: Trade) -> Candle {
    Candle {
        bucket_ms: bucket,
        open: trade.price,
        high: trade.price,
        low: trade.price,
        close: trade.price,
        volume: trade.size,
        trade_count: 1,
        liq_count: if trade.is_liquidation { 1 } else { 0 },
    }
}

/// `new` is `old` with one more trade of the same bucket merged in.
pub open spec fn extended(new: Candle, old: Candle, trade: Trade) -> bool {
    &&& new.bucket_ms == old.bucket_ms
    &&& new.open == old.open
    &&& new.high == (if old.high@ < trade.price@ { trade.price } else { old.high })
    &&& new.low == (if trade.price@ < old.low@ { trade.price } else { old.low })
    &&& new.close == trade.price
    &&& new.volume.wf()
    &&& new.volume == sum_of(old.volume, trade.size)
    &&& add_fits(old.volume, trade.size) ==> new.volume@ == old.volume@ + trade.size@
    &&& new.trade_count == old.trade_count + 1
    &&& new.liq_count == old.liq_count + (if trade.is_liquidation { 1int } else { 0int })
}

/// The builder takes the trade: it opens or skips an interval, or it can
/// merge the trade, adding its size to the candle's volume without
/// overflow and counting it.
pub open spec fn takes(b: CandleBuilder, trade: Trade) -> bool {
    b.bucket() == Some(bucket_of(trade.timestamp_ms, b.interval()) as i64) ==> b.can_merge(trade)
}

/// One trade through the builder: a trade of the current interval is
/// merged, a trade of a later interval completes the current candle (which
/// `r` returns) and starts a new one, a trade of an earlier interval is
/// dropped, and the first trade starts the first candle.
pub open spec fn builder_step(before: CandleBuilder, after: CandleBuilder, trade: Trade, r: Option<Candle>) -> bool {
    &&& after.interval() == before.interval()
    &&& ({
        let b = bucket_of(trade.timestamp_ms, before.interval()) as i64;
        match before.bucket() {
            None => {
                &&& r is None
                &&& after.bucket() == Some(b)
                &&& after.building() == started(b, trade)
            },
            Some(cur) => if cur == b {
                &&& r is None
                &&& after.bucket() == Some(cur)
                &&& extended(after.building(), before.building(), trade)
            } else if b > cur {
                &&& r == Some(before.building())
                &&& after.bucket() == Some(b)
                &&& after.building() == started(b, trade)
            } else {
                &&& r is None
                &&& after.bucket() == before.bucket()
                &&& after.building() == before.building()
            },
        }
    })
    &&& r matches Some(c) ==> {
        &&& c.wf()
        &&& c.ordered()
        &&& c.trade_count >= 1
        &&& c.liq_count <= c.trade_count
        &&& after.bucket() matches Some(nb) && c.bucket_ms < nb
    }
}

/// Accumulates trades into candles and emits a completed candle whenever a
/// trade opens a later interval. Trades of an earlier interval than the
/// current one are dropped.
pub struct CandleBuilder {
    interval_ms: i64,
    current_bucket: Option<i64>,
    open: Dec,
    high: Dec,
    low: Dec,
    close: Dec,
    volume: Dec,
    trade_count: u32,
    liq_count: u32,
}

impl CandleBuilder {
    pub closed spec fn interval(&self) -> i64 {
        self.interval_ms
    }

    /// Open time of the candle being built, if any.
    pub closed spec fn bucket(&self) -> Option<i64> {
        self.current_bucket
    }

    /// The candle being built (meaningful when `bucket()` is Some).
    pub closed spec fn building(&self) -> Candle {
        Candle {
            bucket_ms: match self.current_bucket {
                Some(b) => b,
                None => 0,
            },
            open: self.open,
            high: self.high,
            low: self.low,
            close: self.close,
            volume: self.volume,
            trade_count: self.trade_count,
            liq_count: self.liq_count,
        }
    }

    pub closed spec fn wf(&self) -> bool {
        &&& self.interval_ms > 0
        &&& self.current_bucket is Some ==> {
            &&& self.building().wf()
            &&& self.building().ordered()
            &&& self.trade_count >= 1
            &&& self.liq_count <= self.trade_count
        }
    }

    /// Whether the builder can merge `trade` into the candle it is building
    /// without overflowing the volume or the trade counter.
    pub open spec fn can_merge(&self, trade: Trade) -> bool {
        &&& sum_opt(self.building().volume, trade.size) is Some
        &&& self.building().trade_count < u32::MAX
    }

    /// Whether the builder takes `trade`: always, unless the trade belongs
    /// to the candle being built and adding its size to the candle's volume
    /// overflows, or the trade counter is full.
    pub fn accepts(&self, trade: &Trade) -> (r: bool)
        requires
            self.wf(),
            trade.wf(),
        ensures
            r == takes(*self, *trade),
            r ==> (self.bucket() == Some(bucket_of(trade.timestamp_ms, self.interval()) as i64)
                ==> self.can_merge(*trade)),
    {
        proof {
            lemma_bucket_in_range(trade.timestamp_ms, self.interval_ms);
        }
        let bucket = (trade.timestamp_ms / self.interval_ms) * self.interval_ms;
        match self.current_bucket {
            Some(current) => {
                if current == bucket {
                    checked_sum(&self.volume, &trade.size).is_some() && self.trade_count < u32::MAX
                } else {
                    true
                }
            },
            None => true,
        }
    }

    pub fn new(interval_ms: i64) -> (b: Self)
        requires
            interval_ms > 0,
        ensures
            b.wf(),
            b.interval() == interval_ms,
            b.bucket() is None,
    {
        CandleBuilder {
            interval_ms,
            current_bucket: None,
            open: Dec::zero(),
            high: Dec::zero(),
            low: Dec::zero(),
            close: Dec::zero(),
            volume: Dec::zero(),
            trade_count: 0,
            liq_count: 0,
        }
    }

    /// Feeds one trade. Returns the completed candle when the trade opens a
    /// later interval than the one being built.
    pub fn push(&mut self, trade: &Trade) -> (r: Option<Candle>)
        requires
            old(self).wf(),
            trade.wf(),
            old(self).bucket() == Some(bucket_of(trade.timestamp_ms, old(self).interval()) as i64)
                ==> old(self).can_merge(*trade),
        ensures
            final(self).wf(),
            builder_step(*old(self), *final(self), *trade, r),
    {
        proof {
            lemma_bucket_in_range(trade.timestamp_ms, self.interval_ms);
        }
        let bucket = (trade.timestamp_ms / self.interval_ms) * self.interval_ms;
        match self.current_bucket {
            None => {
                self.start_bucket(bucket, trade);
                None
            },
            Some(current) => {
                if current == bucket {
                    self.accumulate(trade);
                    None
                } else if bucket > current {
                    let completed = self.snapshot();
                    self.start_bucket(bucket, trade);
                    Some(completed)
                } else {
                    None
                }
            },
        }
    }

    fn start_bucket(&mut self, bucket: i64, trade: &Trade)
        requires
            old(self).interval_ms > 0,
            trade.wf(),
        ensures
            final(self).wf(),
            final(self).interval_ms == old(self).interval_ms,
            final(self).current_bucket == Some(bucket),
            final(self).building() == started(bucket, *trade),
    {
        self.current_bucket = Some(bucket);
        self.open = trade.price;
        self.high = trade.price;
        self.low = trade.price;
        self.close = trade.price;
        self.volume = trade.size;
        self.trade_count = 1;
        self.liq_count = if trade.is_liquidation { 1 } else { 0 };
    }

    fn accumulate(&mut self, trade: &Trade)
        requires
            old(self).wf(),
            old(self).current_bucket is Some,
            trade.wf(),
            old(self).can_merge(*trade),
        ensures
            final(self).wf(),
            final(self).interval_ms == old(self).interval_ms,
            final(self).current_bucket == old(self).current_bucket,
            extended(final(self).building(), old(self).building(), *trade),
    {
        if dec_lt(&self.high, &trade.price) {
            self.high = trade.price;
        }
        if dec_lt(&trade.price, &self.low) {
            self.low = trade.price;
        }
        self.close = trade.price;
        self.volume = dec_add(&self.volume, &trade.size);
        self.trade_count = self.trade_count + 1;
        if trade.is_liquidation {
            self.liq_count = self.liq_count + 1;
        }
    }

    fn snapshot(&self) -> (c: Candle)
        requires
            self.current_bucket is Some,
        ensures
            c == self.building(),
    {
        let bucket_ms = match self.current_bucket {
            Some(b) => b,
            None => 0,
        };
        Candle {
            bucket_ms,
            open: self.open,
            high: self.high,
            low: self.low,
            close: self.close,
            volume: self.volume,
            trade_count: self.trade_count,
            liq_count: self.liq_count,
        }
    }
}

/// The interval open time fits in an `i64` and Rust computes it as
/// `bucket_of`.
proof fn lemma_bucket_in_range(ts: i64, interval_ms: i64)
    requires
        interval_ms > 0,
    ensures
        i64::MIN <= bucket_of(ts, interval_ms) <= i64::MAX,
        i64::MIN <= trunc_div(ts as int, interval_ms as int) <= i64::MAX,
{
    let q = trunc_div(ts as int, interval_ms as int);
    if ts >= 0 {
        assert(q * interval_ms <= ts) by (nonlinear_arith)
            requires
                q == (ts as int) / (interval_ms as int),
                ts >= 0,
                interval_ms > 0,
        ;
        assert(q >= 0 && q * interval_ms >= 0) by (nonlinear_arith)
            requires
                q == (ts as int) / (interval_ms as int),
                ts >= 0,
                interval_ms > 0,
        ;
    } else {
        assert(q * interval_ms >= ts && q * interval_ms <= 0) by (nonlinear_arith)
            requires
                q == -((-(ts as int)) / (interval_ms as int)),
                ts < 0,
                interval_ms > 0,
        ;
    }
}

/// A trade at a non-negative time falls in the interval that its candle
/// opens: the open time is a multiple of the interval length, at or before
/// the trade, and less than one interval before it.
pub proof fn law_bucket_contains_trade(ts: i64, interval_ms: i64)
    requires
        interval_ms > 0,
        ts >= 0,
    ensures
        bucket_of(ts, interval_ms) % (interval_ms as int) == 0,
        bucket_of(ts, interval_ms) <= ts < bucket_of(ts, interval_ms) + interval_ms,
{
    let q = (ts as int) / (interval_ms as int);
    assert(q * interval_ms <= ts < q * interval_ms + interval_ms) by (nonlinear_arith)
        requires
            q == (ts as int) / (interval_ms as int),
            ts >= 0,
            interval_ms > 0,
    ;
    assert((q * interval_ms) % (interval_ms as int) == 0) by (nonlinear_arith)
        requires
            interval_ms > 0,
    ;
}

/// Candles come out in time order: of two candles emitted one after the
/// other by the same builder, the later opens strictly after the earlier.
pub proof fn law_emitted_candles_increase(
    b0: CandleBuilder,
    b1: CandleBuilder,
    b2: CandleBuilder,
    t1: Trade,
    t2: Trade,
    first: Candle,
    second: Candle,
)
    requires
        builder_step(b0, b1, t1, Some(first)),
        builder_step(b1, b2, t2, Some(second)),
    ensures
        first.bucket_ms < second.bucket_ms,
{
}

/// A run of pushes: on trade `ts[i]` the builder `bs[i]` becomes
/// `bs[i + 1]` and returns `rs[i]`.
pub open spec fn builder_run(bs: Seq<CandleBuilder>, ts: Seq<Trade>, rs: Seq<Option<Candle>>) -> bool {
    &&& bs.len() == ts.len() + 1
    &&& rs.len() == ts.len()
    &&& forall|i: int| 0 <= i < ts.len() ==> builder_step(bs[i], bs[i + 1], #[trigger] ts[i], rs[i])
}

/// Once a builder has an interval open, every later one of the run has one
/// too, never earlier.
proof fn lemma_bucket_grows(bs: Seq<CandleBuilder>, ts: Seq<Trade>, rs: Seq<Option<Candle>>, a: int, k: int)
    requires
        builder_run(bs, ts, rs),
        0 <= a <= k <= ts.len(),
        bs[a].bucket() is Some,
    ensures
        bs[k].bucket() is Some,
        bs[a].bucket().unwrap() <= bs[k].bucket().unwrap(),
    decreases k - a,
{
    if k > a {
        lemma_bucket_grows(bs, ts, rs, a, k - 1);
        let t = ts[k - 1];
        assert(builder_step(bs[k - 1], bs[k], t, rs[k - 1]));
    }
}

/// Over any run of pushes, each emitted candle is well ordered and holds a
/// trade, and the candles come out in strictly increasing time order.
pub proof fn law_run_emits_in_order(
    bs: Seq<CandleBuilder>,
    ts: Seq<Trade>,
    rs: Seq<Option<Candle>>,
    i: int,
    j: int,
)
    requires
        builder_run(bs, ts, rs),
        0 <= i < j < ts.len(),
        rs[i] is Some,
        rs[j] is Some,
    ensures
        rs[i].unwrap().bucket_ms < rs[j].unwrap().bucket_ms,
        rs[i].unwrap().ordered(),
        rs[j].unwrap().ordered(),
        rs[i].unwrap().trade_count >= 1,
        rs[j].unwrap().trade_count >= 1,
{
    let ti = ts[i];
    let tj = ts[j];
    assert(builder_step(bs[i], bs[i + 1], ti, rs[i]));
    assert(builder_step(bs[j], bs[j + 1], tj, rs[j]));
    lemma_bucket_grows(bs, ts, rs, i + 1, j);
}

/// Every emitted candle is well ordered: its low is the least and its high
/// the greatest of its prices, and it holds at least one trade.
pub proof fn law_emitted_candle_ordered(b0: CandleBuilder, b1: CandleBuilder, t: Trade, c: Candle)
    requires
        builder_step(b0, b1, t, Some(c)),
    ensures
        c.ordered(),
        c.trade_count >= 1,
        c.liq_count <= c.trade_count,
{
}

/// The volume of a candle built from a run of trades: the first size,
/// then each further size added with `rust_decimal`'s `+`.
pub open spec fn running_volume(ts: Seq<Trade>) -> Dec
    decreases ts.len(),
{
    if ts.len() <= 1 {
        ts[0].size
    } else {
        sum_of(running_volume(ts.drop_last()), ts.last().size)
    }
}

/// Liquidations among a run of trades.
pub open spec fn liquidations(ts: Seq<Trade>) -> int
    decreases ts.len(),
{
    if ts.len() == 0 {
        0
    } else {
        liquidations(ts.drop_last()) + (if ts.last().is_liquidation { 1int } else { 0int })
    }
}

/// A candle covers exactly the trades of its interval: feeding a fresh
/// builder any number of trades of one interval and then a trade of a later
/// interval emits one candle, at that last trade, whose open is the first
/// price, whose close is the last price of the interval, whose volume is
/// the sizes added up in order and whose counts are the number of trades
/// and of liquidations among them.
pub proof fn law_candle_covers_interval(
    bs: Seq<CandleBuilder>,
    ts: Seq<Trade>,
    rs: Seq<Option<Candle>>,
)
    requires
        bs.len() == ts.len() + 1,
        rs.len() == ts.len(),
        ts.len() >= 2,
        bs[0].interval() > 0,
        bs[0].bucket() is None,
        forall|i: int| #![trigger rs[i]] 0 <= i < ts.len() ==> builder_step(bs[i], bs[i + 1], ts[i], rs[i]),
        forall|i: int| 0 <= i < ts.len() - 1 ==> bucket_of((#[trigger] ts[i]).timestamp_ms, bs[0].interval())
            == bucket_of(ts[0].timestamp_ms, bs[0].interval()),
        bucket_of(ts.last().timestamp_ms, bs[0].interval()) > bucket_of(ts[0].timestamp_ms, bs[0].interval()),
    ensures
        forall|i: int| 0 <= i < ts.len() - 1 ==> (#[trigger] rs[i]) is None,
        rs.last() matches Some(c) && {
            &&& c.bucket_ms == bucket_of(ts[0].timestamp_ms, bs[0].interval())
            &&& c.open == ts[0].price
            &&& c.close == ts[ts.len() - 2].price
            &&& c.volume == running_volume(ts.drop_last())
            &&& c.trade_count == ts.len() - 1
            &&& c.liq_count == liquidations(ts.drop_last())
        },
{
    let n = ts.len() - 1;
    assert forall|i: int| 0 <= i < ts.len() - 1 implies (#[trigger] rs[i]) is None by {
        lemma_interval_run(bs, ts, rs, i + 1);
    }
    lemma_interval_run(bs, ts, rs, n);
    let iv = bs[0].interval();
    lemma_bucket_in_range(ts[0].timestamp_ms, iv);
    lemma_bucket_in_range(ts.last().timestamp_ms, iv);
    assert(rs[n] == rs[n]);
    assert(ts.take(n) =~= ts.drop_last());
}

proof fn lemma_interval_run(bs: Seq<CandleBuilder>, ts: Seq<Trade>, rs: Seq<Option<Candle>>, k: int)
    requires
        bs.len() == ts.len() + 1,
        rs.len() == ts.len(),
        1 <= k <= ts.len() - 1,
        bs[0].interval() > 0,
        bs[0].bucket() is None,
        forall|i: int| #![trigger rs[i]] 0 <= i < ts.len() ==> builder_step(bs[i], bs[i + 1], ts[i], rs[i]),
        forall|i: int| 0 <= i < ts.len() - 1 ==> bucket_of((#[trigger] ts[i]).timestamp_ms, bs[0].interval())
            == bucket_of(ts[0].timestamp_ms, bs[0].interval()),
    ensures
        bs[k].interval() == bs[0].interval(),
        bs[k].bucket() == Some(bucket_of(ts[0].timestamp_ms, bs[0].interval()) as i64),
        rs[k - 1] is None,
        bs[k].building().bucket_ms == bucket_of(ts[0].timestamp_ms, bs[0].interval()),
        bs[k].building().open == ts[0].price,
        bs[k].building().close == ts[k - 1].price,
        bs[k].building().volume == running_volume(ts.take(k)),
        bs[k].building().trade_count == k,
        bs[k].building().liq_count == liquidations(ts.take(k)),
    decreases k,
{
    let iv = bs[0].interval();
    lemma_bucket_in_range(ts[0].timestamp_ms, iv);
    assert(rs[k - 1] == rs[k - 1]);
    assert(ts[k - 1] == ts[k - 1]);
    if k > 1 {
        lemma_interval_run(bs, ts, rs, k - 1);
        assert(ts.take(k).drop_last() =~= ts.take(k - 1));
        assert(ts.take(k).last() == ts[k - 1]);
        assert(running_volume(ts.take(k)) == sum_of(running_volume(ts.take(k - 1)), ts[k - 1].size));
        assert(liquidations(ts.take(k)) == liquidations(ts.take(k - 1)) + (if ts[k - 1].is_liquidation {
            1int
        } else {
            0int
        }));
    } else {
        assert(ts.take(1).drop_last() =~= ts.take(0));
        assert(ts.take(1).last() == ts[0]);
        assert(running_volume(ts.take(1)) == ts[0].size);
        assert(liquidations(ts.take(1)) == liquidations(ts.take(0)) + (if ts[0].is_liquidation {
            1int
        } else {
            0int
        }));
    }
}

} // verus!
