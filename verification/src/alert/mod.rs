//! Telegram alerts for live events entering observation: the message text,
//! and a per coin, type and direction cooldown that keeps them from
//! repeating. The caller sends the messages and keeps the clock.

use vstd::prelude::*;
use vstd::string::StringExecFns;
use crate::decimal::{
    Dec, dec_mul, dec_lt, dec_text, dec_text_fixed3, decimal_text, fixed3_text, product_opt, product_of,
    checked_product, fixed3_writable, lemma_pow10_values, pow10, one_units,
};
use crate::detection::types::{
    CascadeDirection, EventLifecycle, EventSource, EventType, MarketEvent, SweepDirection,
};
use crate::text::{i64_to_text, int_text, text_eq};

verus! {

/// How long an alert key stays quiet after an alert: five minutes.
pub const COOLDOWN_MS: u128 = 300_000;

/// Only live events that enter observation are alerted; replayed events
/// would flood the channel.
pub fn should_alert(event: &MarketEvent) -> (r: bool)
    ensures
        r == (event.source == EventSource::Live && event.lifecycle == EventLifecycle::Confirming),
{
    event.source == EventSource::Live && event.lifecycle == EventLifecycle::Confirming
}

/// Whether a key may alert again, given how long ago it last alerted.
pub fn alert_allowed(elapsed_since_last_ms: Option<u128>) -> (r: bool)
    ensures
        r == (match elapsed_since_last_ms {
            None => true,
            Some(ms) => ms >= COOLDOWN_MS,
        }),
{
    match elapsed_since_last_ms {
        None => true,
        Some(ms) => ms >= COOLDOWN_MS,
    }
}

pub open spec fn sweep_name(d: SweepDirection) -> Seq<char> {
    match d {
        SweepDirection::Bullish => "Bullish"@,
        SweepDirection::Bearish => "Bearish"@,
    }
}

pub open spec fn cascade_name(d: CascadeDirection) -> Seq<char> {
    match d {
        CascadeDirection::LongLiq => "LongLiq"@,
        CascadeDirection::ShortLiq => "ShortLiq"@,
    }
}

/// The cooldown key of an event: its coin, type and direction.
pub open spec fn cooldown_key_of(e: MarketEvent) -> Seq<char> {
    match e.event_type {
        EventType::LiquiditySweep => match e.sweep_direction {
            Some(d) => e.coin@ + "_sweep_"@ + sweep_name(d),
            None => e.coin@ + "_unknown"@,
        },
        EventType::LiquidationCascade => match e.cascade_direction {
            Some(d) => e.coin@ + "_cascade_"@ + cascade_name(d),
            None => e.coin@ + "_unknown"@,
        },
    }
}

pub fn cooldown_key(event: &MarketEvent) -> (r: String)
    ensures
        r@ == cooldown_key_of(*event),
{
    let coin = event.coin.clone();
    match event.event_type {
        EventType::LiquiditySweep => match event.sweep_direction {
            Some(SweepDirection::Bullish) => coin.concat("_sweep_").concat("Bullish"),
            Some(SweepDirection::Bearish) => coin.concat("_sweep_").concat("Bearish"),
            None => coin.concat("_unknown"),
        },
        EventType::LiquidationCascade => match event.cascade_direction {
            Some(CascadeDirection::LongLiq) => coin.concat("_cascade_").concat("LongLiq"),
            Some(CascadeDirection::ShortLiq) => coin.concat("_cascade_").concat("ShortLiq"),
            None => coin.concat("_unknown"),
        },
    }
}

/// A price as `$<decimal>`, or nothing.
pub open spec fn price_text(p: Option<Dec>) -> Seq<char> {
    match p {
        Some(x) => "$"@ + decimal_text(x.mantissa, x.scale),
        None => ""@,
    }
}

/// A wick fraction as a percentage with three decimals, or nothing.
pub open spec fn wick_text(w: Option<Dec>) -> Seq<char> {
    match w {
        Some(x) => fixed3_text(product_of(x, hundred())@) + "%"@,
        None => ""@,
    }
}

pub open spec fn count_text(n: Option<i32>) -> Seq<char> {
    match n {
        Some(v) => int_text(v as int),
        None => ""@,
    }
}

/// The alert text of an event, in Telegram's HTML.
pub open spec fn alert_text(e: MarketEvent) -> Seq<char> {
    match e.event_type {
        EventType::LiquiditySweep => {
            let direction = match e.sweep_direction {
                Some(SweepDirection::Bullish) => "BULLISH"@,
                Some(SweepDirection::Bearish) => "BEARISH"@,
                None => "UNKNOWN"@,
            };
            "<b>[SWEEP] "@ + e.coin@ + " "@ + e.interval@ + "</b>\n"@ + direction + " sweep of "@ + price_text(
                e.level_price,
            ) + "\nWick "@ + wick_text(e.wick_pct) + " → close "@ + price_text(e.close_price)
        },
        EventType::LiquidationCascade => {
            let direction = match e.cascade_direction {
                Some(CascadeDirection::LongLiq) => "LONG LIQ"@,
                Some(CascadeDirection::ShortLiq) => "SHORT LIQ"@,
                None => "UNKNOWN"@,
            };
            "<b>[CASCADE] "@ + e.coin@ + " "@ + e.interval@ + "</b>\n"@ + direction
                + " liquidation cascade\nStart "@ + price_text(e.cascade_start_price) + " | "@
                + count_text(e.liq_count_total) + " liqs | "@ + count_text(e.candles_sustained)
                + " candles"@
        },
    }
}

/// The amounts an alert shows are valid decimals.
pub open spec fn alert_amounts_ok(e: MarketEvent) -> bool {
    &&& e.level_price matches Some(p) ==> p.wf()
    &&& e.close_price matches Some(p) ==> p.wf()
    &&& e.cascade_start_price matches Some(p) ==> p.wf()
    &&& e.wick_pct matches Some(w) ==> w.wf()
}

/// The decimal one hundred.
pub open spec fn hundred() -> Dec {
    Dec { mantissa: 100, scale: 0 }
}

/// The sweep alert's percentage, the wick fraction times a hundred, is
/// defined and can be written with three decimals (`rust_decimal` would
/// panic otherwise).
pub open spec fn alert_computable(e: MarketEvent) -> bool {
    e.event_type == EventType::LiquiditySweep && e.wick_pct is Some ==> {
        &&& product_opt(e.wick_pct.unwrap(), hundred()) is Some
        &&& fixed3_writable(product_of(e.wick_pct.unwrap(), hundred()))
    }
}

fn price_part(p: &Option<Dec>) -> (r: String)
    requires
        p matches Some(x) ==> x.wf(),
    ensures
        r@ == price_text(*p),
{
    match p {
        Some(x) => "$".to_owned().concat(dec_text(x).as_str()),
        None => "".to_owned(),
    }
}

fn wick_part(w: &Option<Dec>) -> (r: String)
    requires
        w matches Some(x) ==> x.wf() && product_opt(*x, hundred()) is Some && fixed3_writable(
            product_of(*x, hundred()),
        ),
    ensures
        r@ == wick_text(*w),
{
    match w {
        Some(x) => {
            let pct = dec_mul(x, &Dec::new(100, 0));
            dec_text_fixed3(&pct).concat("%")
        },
        None => "".to_owned(),
    }
}

fn count_part(n: Option<i32>) -> (r: String)
    ensures
        r@ == count_text(n),
{
    match n {
        Some(v) => i64_to_text(v as i64),
        None => "".to_owned(),
    }
}

/// The alert text of an event.
pub fn format_event(event: &MarketEvent) -> (r: String)
    requires
        alert_amounts_ok(*event),
        alert_computable(*event),
    ensures
        r@ == alert_text(*event),
{
    match event.event_type {
        EventType::LiquiditySweep => {
            let direction = match event.sweep_direction {
                Some(SweepDirection::Bullish) => "BULLISH",
                Some(SweepDirection::Bearish) => "BEARISH",
                None => "UNKNOWN",
            };
            let level = price_part(&event.level_price);
            let wick = wick_part(&event.wick_pct);
            let close = price_part(&event.close_price);
            "<b>[SWEEP] ".to_owned().concat(event.coin.as_str()).concat(" ").concat(event.interval.as_str()).concat(
                "</b>\n",
            ).concat(direction).concat(" sweep of ").concat(level.as_str()).concat("\nWick ").concat(
                wick.as_str(),
            ).concat(" → close ").concat(close.as_str())
        },
        EventType::LiquidationCascade => {
            let direction = match event.cascade_direction {
                Some(CascadeDirection::LongLiq) => "LONG LIQ",
                Some(CascadeDirection::ShortLiq) => "SHORT LIQ",
                None => "UNKNOWN",
            };
            let start = price_part(&event.cascade_start_price);
            let liqs = count_part(event.liq_count_total);
            let candles = count_part(event.candles_sustained);
            "<b>[CASCADE] ".to_owned().concat(event.coin.as_str()).concat(" ").concat(event.interval.as_str()).concat(
                "</b>\n",
            ).concat(direction).concat(" liquidation cascade\nStart ").concat(start.as_str()).concat(" | ").concat(
                liqs.as_str(),
            ).concat(" liqs | ").concat(candles.as_str()).concat(" candles")
        },
    }
}

/// The alert text of an event whose amounts are valid decimals, or `None`
/// where the sweep percentage would overflow.
pub fn format_event_checked(event: &MarketEvent) -> (r: Option<String>)
    requires
        alert_amounts_ok(*event),
    ensures
        r is Some <==> alert_computable(*event),
        r matches Some(t) ==> t@ == alert_text(*event),
{
    if let EventType::LiquiditySweep = event.event_type {
        if let Some(w) = &event.wick_pct {
            let pct = match checked_product(w, &Dec::new(100, 0)) {
                Some(p) => p,
                None => {
                    return None;
                },
            };
            let bound = Dec { mantissa: 10000000000000000000000000000, scale: 0 };
            let low = Dec { mantissa: -10000000000000000000000000000, scale: 0 };
            proof {
                lemma_pow10_values();
                assert(pct == product_of(*w, hundred()));
                assert(bound@ == pow10(28) * one_units());
                let p = pow10(28);
                assert(low@ == -bound@) by (nonlinear_arith)
                    requires
                        low@ == (low.mantissa as int) * p,
                        bound@ == (bound.mantissa as int) * p,
                        low.mantissa == -bound.mantissa,
                ;
            }
            if !(dec_lt(&low, &pct) && dec_lt(&pct, &bound)) {
                return None;
            }
        }
    }
    Some(format_event(event))
}

/// The last alert time of each key among `entries`, later entries taking
/// precedence over earlier ones.
pub open spec fn alerts_map(entries: Seq<(String, u128)>) -> Map<Seq<char>, u128>
    decreases entries.len(),
{
    if entries.len() == 0 {
        Map::empty()
    } else {
        alerts_map(entries.drop_last()).insert(entries.last().0@, entries.last().1)
    }
}

/// Time elapsed from `last` to `now`, zero if the clock reads earlier.
pub open spec fn elapsed_ms(now: u128, last: u128) -> int {
    if now >= last {
        now - last
    } else {
        0
    }
}

/// One event through the cooldowns, given when each key last alerted and
/// the time now: whether it alerts, and the last alert times afterwards.
/// An event alerts when it is live and entering observation and its key
/// has never alerted or last alerted at least `COOLDOWN_MS` ago; only then
/// is its key stamped with the time now.
pub open spec fn cooldown_step(last: Map<Seq<char>, u128>, e: MarketEvent, now: u128) -> (bool, Map<
    Seq<char>,
    u128,
>) {
    let key = cooldown_key_of(e);
    let alerts = e.source == EventSource::Live && e.lifecycle == EventLifecycle::Confirming && (
    !last.dom().contains(key) || elapsed_ms(now, last[key]) >= COOLDOWN_MS);
    (alerts, if alerts {
        last.insert(key, now)
    } else {
        last
    })
}

/// When each alert key last alerted, in milliseconds on the caller's clock.
pub struct AlertCooldowns {
    entries: Vec<(String, u128)>,
}

impl View for AlertCooldowns {
    type V = Map<Seq<char>, u128>;

    closed spec fn view(&self) -> Map<Seq<char>, u128> {
        alerts_map(self.entries@)
    }
}

proof fn lemma_alerts_absent(es: Seq<(String, u128)>, k: Seq<char>)
    requires
        forall|i: int| 0 <= i < es.len() ==> (#[trigger] es[i]).0@ != k,
    ensures
        !alerts_map(es).dom().contains(k),
    decreases es.len(),
{
    if es.len() > 0 {
        assert(es.last() == es[es.len() - 1]);
        lemma_alerts_absent(es.drop_last(), k);
    }
}

proof fn lemma_alerts_latest(es: Seq<(String, u128)>, j: int)
    requires
        0 <= j < es.len(),
        forall|i: int| j < i < es.len() ==> (#[trigger] es[i]).0@ != es[j].0@,
    ensures
        alerts_map(es).dom().contains(es[j].0@),
        alerts_map(es)[es[j].0@] == es[j].1,
    decreases es.len(),
{
    if j < es.len() - 1 {
        assert(es.last() == es[es.len() - 1]);
        lemma_alerts_latest(es.drop_last(), j);
    }
}

proof fn lemma_alerts_restamp(es: Seq<(String, u128)>, j: int, entry: (String, u128))
    requires
        0 <= j < es.len(),
        entry.0@ == es[j].0@,
        forall|i: int| j < i < es.len() ==> (#[trigger] es[i]).0@ != es[j].0@,
    ensures
        alerts_map(es.update(j, entry)) == alerts_map(es).insert(entry.0@, entry.1),
    decreases es.len(),
{
    let u = es.update(j, entry);
    if j == es.len() - 1 {
        assert(u.drop_last() =~= es.drop_last());
        assert(alerts_map(u) =~= alerts_map(es).insert(entry.0@, entry.1));
    } else {
        assert(es.last() == es[es.len() - 1]);
        assert(u.drop_last() =~= es.drop_last().update(j, entry));
        lemma_alerts_restamp(es.drop_last(), j, entry);
        assert(alerts_map(u) =~= alerts_map(es).insert(entry.0@, entry.1));
    }
}

impl AlertCooldowns {
    /// No key has alerted yet.
    pub fn new() -> (c: Self)
        ensures
            c@ == Map::<Seq<char>, u128>::empty(),
    {
        AlertCooldowns { entries: Vec::new() }
    }

    /// The position of the latest entry for `key`, if any.
    fn find(&self, key: &String) -> (r: Option<usize>)
        ensures
            match r {
                Some(j) => {
                    &&& j < self.entries@.len()
                    &&& self.entries@[j as int].0@ == key@
                    &&& forall|i: int| j < i < self.entries@.len() ==> (#[trigger] self.entries@[i]).0@ != key@
                },
                None => forall|i: int| 0 <= i < self.entries@.len() ==> (#[trigger] self.entries@[i]).0@ != key@,
            },
    {
        let mut n = self.entries.len();
        while n > 0
            invariant
                n <= self.entries@.len(),
                forall|i: int| n <= i < self.entries@.len() ==> (#[trigger] self.entries@[i]).0@ != key@,
            decreases n,
        {
            if text_eq(self.entries[n - 1].0.as_str(), key.as_str()) {
                return Some(n - 1);
            }
            n = n - 1;
        }
        None
    }

    /// Passes one event through the cooldowns at time `now_ms` and tells
    /// whether to alert on it; when it does, its key is stamped with
    /// `now_ms`.
    pub fn on_event(&mut self, event: &MarketEvent, now_ms: u128) -> (alert: bool)
        ensures
            (alert, final(self)@) == cooldown_step(old(self)@, *event, now_ms),
    {
        if !should_alert(event) {
            return false;
        }
        let key = cooldown_key(event);
        match self.find(&key) {
            Some(j) => {
                let last = self.entries[j].1;
                proof {
                    lemma_alerts_latest(self.entries@, j as int);
                }
                let elapsed: u128 = if now_ms >= last {
                    now_ms - last
                } else {
                    0
                };
                if !alert_allowed(Some(elapsed)) {
                    return false;
                }
                proof {
                    lemma_alerts_restamp(self.entries@, j as int, (key, now_ms));
                }
                self.entries.set(j, (key, now_ms));
                true
            },
            None => {
                proof {
                    lemma_alerts_absent(self.entries@, key@);
                    assert(self.entries@.push((key, now_ms)).drop_last() =~= self.entries@);
                }
                self.entries.push((key, now_ms));
                true
            },
        }
    }
}

/// Alerts of one key are spaced by the cooldown: when events arrive with
/// a clock that never runs backwards, any two alerts with the same key are
/// at least `COOLDOWN_MS` apart.
pub proof fn law_alerts_spaced(
    maps: Seq<Map<Seq<char>, u128>>,
    events: Seq<MarketEvent>,
    times: Seq<u128>,
    alerts: Seq<bool>,
    i: int,
    j: int,
)
    requires
        maps.len() == events.len() + 1,
        times.len() == events.len(),
        alerts.len() == events.len(),
        forall|k: int| #![trigger events[k]] 0 <= k < events.len() ==> cooldown_step(maps[k], events[k], times[k]) == (
        alerts[k], maps[k + 1]),
        forall|a: int, b: int| 0 <= a <= b < times.len() ==> times[a] <= times[b],
        0 <= i < j < events.len(),
        alerts[i],
        alerts[j],
        cooldown_key_of(events[i]) == cooldown_key_of(events[j]),
    ensures
        times[j] - times[i] >= COOLDOWN_MS,
{
    lemma_stamp_kept(maps, events, times, alerts, i, j);
    assert(events[j] == events[j]);
}

proof fn lemma_stamp_kept(
    maps: Seq<Map<Seq<char>, u128>>,
    events: Seq<MarketEvent>,
    times: Seq<u128>,
    alerts: Seq<bool>,
    i: int,
    k: int,
)
    requires
        maps.len() == events.len() + 1,
        times.len() == events.len(),
        alerts.len() == events.len(),
        forall|m: int| #![trigger events[m]] 0 <= m < events.len() ==> cooldown_step(maps[m], events[m], times[m]) == (
        alerts[m], maps[m + 1]),
        forall|a: int, b: int| 0 <= a <= b < times.len() ==> times[a] <= times[b],
        0 <= i < k <= events.len(),
        alerts[i],
    ensures
        maps[k].dom().contains(cooldown_key_of(events[i])),
        maps[k][cooldown_key_of(events[i])] >= times[i],
    decreases k,
{
    let key = cooldown_key_of(events[i]);
    let step = cooldown_step(maps[k - 1], events[k - 1], times[k - 1]);
    assert(step == (alerts[k - 1], maps[k]));
    if k - 1 > i {
        lemma_stamp_kept(maps, events, times, alerts, i, k - 1);
        assert(times[i] <= times[k - 1]);
        if step.0 {
            assert(maps[k] == maps[k - 1].insert(cooldown_key_of(events[k - 1]), times[k - 1]));
        } else {
            assert(maps[k] == maps[k - 1]);
        }
    } else {
        assert(step == cooldown_step(maps[i], events[i], times[i]));
        assert(maps[k] == maps[i].insert(key, times[i]));
    }
}

/// Whatever the clock reads: an alert follows the previous alert of its
/// key, with no alert of that key in between, only once the clock reads at
/// least `COOLDOWN_MS` past it, and it is an alert for a live event
/// entering observation. Alerts of other keys do not matter.
pub proof fn law_alert_follows_cooldown(
    maps: Seq<Map<Seq<char>, u128>>,
    events: Seq<MarketEvent>,
    times: Seq<u128>,
    alerts: Seq<bool>,
    i: int,
    j: int,
)
    requires
        maps.len() == events.len() + 1,
        times.len() == events.len(),
        alerts.len() == events.len(),
        forall|k: int| #![trigger events[k]] 0 <= k < events.len() ==> cooldown_step(maps[k], events[k], times[k]) == (
        alerts[k], maps[k + 1]),
        0 <= i < j < events.len(),
        alerts[i],
        alerts[j],
        cooldown_key_of(events[i]) == cooldown_key_of(events[j]),
        forall|m: int| i < m < j && #[trigger] alerts[m] ==> cooldown_key_of(events[m]) != cooldown_key_of(events[i]),
    ensures
        times[j] >= times[i] + COOLDOWN_MS,
        events[j].source == EventSource::Live,
        events[j].lifecycle == EventLifecycle::Confirming,
{
    lemma_stamp_exact(maps, events, times, alerts, i, j);
    assert(events[j] == events[j]);
}

proof fn lemma_stamp_exact(
    maps: Seq<Map<Seq<char>, u128>>,
    events: Seq<MarketEvent>,
    times: Seq<u128>,
    alerts: Seq<bool>,
    i: int,
    k: int,
)
    requires
        maps.len() == events.len() + 1,
        times.len() == events.len(),
        alerts.len() == events.len(),
        forall|m: int| #![trigger events[m]] 0 <= m < events.len() ==> cooldown_step(maps[m], events[m], times[m]) == (
        alerts[m], maps[m + 1]),
        0 <= i < k <= events.len(),
        alerts[i],
        forall|m: int| i < m < k && #[trigger] alerts[m] ==> cooldown_key_of(events[m]) != cooldown_key_of(events[i]),
    ensures
        maps[k].dom().contains(cooldown_key_of(events[i])),
        maps[k][cooldown_key_of(events[i])] == times[i],
    decreases k,
{
    let key = cooldown_key_of(events[i]);
    let step = cooldown_step(maps[k - 1], events[k - 1], times[k - 1]);
    assert(step == (alerts[k - 1], maps[k]));
    if k - 1 > i {
        lemma_stamp_exact(maps, events, times, alerts, i, k - 1);
        if step.0 {
            assert(alerts[k - 1]);
            assert(cooldown_key_of(events[k - 1]) != key);
            assert(maps[k] == maps[k - 1].insert(cooldown_key_of(events[k - 1]), times[k - 1]));
        } else {
            assert(maps[k] == maps[k - 1]);
        }
    } else {
        assert(step == cooldown_step(maps[i], events[i], times[i]));
        assert(maps[k] == maps[i].insert(key, times[i]));
    }
}

} // verus!
