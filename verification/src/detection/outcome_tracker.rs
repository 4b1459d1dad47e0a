//! What followed an event: the cascade guard that may turn a sweep into a
//! cascade, and the outcome classification at the end of the observation
//! window. Storage and timers stay with the caller, which feeds the
//! candles it read and performs the steps decided here.

use vstd::prelude::*;
use crate::decimal::{
    Dec, dec_lt, dec_le, dec_eq, dec_sub, dec_div, dec_mul, dec_max, dec_min, one_units, quotient_of,
    count_dec, product_of, sum_opt, difference_opt, quotient_opt, product_opt, difference_of, checked_sum,
    checked_difference, checked_quotient, checked_product,
};
use crate::db::trades::OhlcvRow;
use crate::detection::interval_config::IntervalConfig;
use crate::detection::types::{
    CascadeDirection, EventLifecycle, EventType, MarketEvent, OutcomeDetail, OutcomeKind,
    SweepDirection,
};

verus! {

// ─── spec model ─────────────────────────────────────────────────────────────

/// The highest of `init` and the highs of the rows, as `Ord::max` picks
/// it (the later of two equal values).
pub open spec fn high_max(rows: Seq<OhlcvRow>, init: Dec) -> Dec
    decreases rows.len(),
{
    if rows.len() == 0 {
        init
    } else {
        let m = high_max(rows.drop_last(), init);
        if rows.last().high@ < m@ {
            m
        } else {
            rows.last().high
        }
    }
}

/// The lowest of `init` and the lows of the rows, as `Ord::min` picks it
/// (the earlier of two equal values).
pub open spec fn low_min(rows: Seq<OhlcvRow>, init: Dec) -> Dec
    decreases rows.len(),
{
    if rows.len() == 0 {
        init
    } else {
        let m = low_min(rows.drop_last(), init);
        if rows.last().low@ < m@ {
            rows.last().low
        } else {
            m
        }
    }
}

/// `(hi - lo) / base` as `rust_decimal` computes it, for a positive base;
/// zero otherwise.
pub open spec fn fraction_of(hi: Dec, lo: Dec, base: Dec) -> Dec {
    if base@ > 0 {
        quotient_of(difference_of(hi, lo), base)
    } else {
        Dec { mantissa: 0, scale: 0 }
    }
}

/// Fractional rise of the highest high over the reference price (zero
/// when the reference price is not positive).
pub open spec fn up_excursion(reference: Dec, rows: Seq<OhlcvRow>) -> Dec {
    fraction_of(high_max(rows, reference), reference, reference)
}

/// Fractional fall of the lowest low under the reference price (zero when
/// the reference price is not positive).
pub open spec fn down_excursion(reference: Dec, rows: Seq<OhlcvRow>) -> Dec {
    fraction_of(reference, low_min(rows, reference), reference)
}

/// Total volume of the rows, added up from zero with `rust_decimal`'s
/// `+`; `None` where a partial sum overflows.
pub open spec fn volume_opt(rows: Seq<OhlcvRow>) -> Option<Dec>
    decreases rows.len(),
{
    if rows.len() == 0 {
        Some(Dec { mantissa: 0, scale: 0 })
    } else {
        match volume_opt(rows.drop_last()) {
            Some(t) => sum_opt(t, rows.last().volume),
            None => None,
        }
    }
}

/// Total volume of the rows, where it is defined.
pub open spec fn rows_volume(rows: Seq<OhlcvRow>) -> Dec {
    volume_opt(rows).unwrap()
}

/// Average row volume as `rust_decimal` computes it.
pub open spec fn rows_average(rows: Seq<OhlcvRow>) -> Dec {
    quotient_of(rows_volume(rows), count_dec(rows.len()))
}

/// The volume a candle must exceed to absorb: the average times the
/// multiplier.
pub open spec fn spike_volume(rows: Seq<OhlcvRow>, multiplier: Dec) -> Dec {
    product_of(rows_average(rows), multiplier)
}

/// `(hi - lo) / base` can be computed: the base is not positive, or
/// neither the difference nor the quotient overflows.
pub open spec fn fraction_defined(hi: Dec, lo: Dec, base: Dec) -> bool {
    base@ > 0 ==> difference_opt(hi, lo) is Some && quotient_opt(difference_of(hi, lo), base) is Some
}

/// The candle's range as a fraction of its close (zero for a close that is
/// not positive).
pub open spec fn range_fraction(c: OhlcvRow) -> int {
    fraction_of(c.high, c.low, c.close)@
}

/// A high-volume, small-range candle: it absorbed the move.
pub open spec fn absorbing(c: OhlcvRow, spike: int, threshold: int) -> bool {
    &&& c.volume@ > spike
    &&& range_fraction(c) < threshold
}

/// Some candle of the rows absorbed the move.
pub open spec fn absorption(rows: Seq<OhlcvRow>, spike: int, threshold: int) -> bool {
    exists|i: int| 0 <= i < rows.len() && #[trigger] absorbing(rows[i], spike, threshold)
}

/// The scan for an absorbing candle computes the range of every candle up
/// to the first that absorbs.
pub open spec fn ranges_defined(rows: Seq<OhlcvRow>, spike: int, threshold: int) -> bool {
    forall|i: int|
        0 <= i < rows.len() && (forall|k: int| 0 <= k < i ==> !#[trigger] absorbing(rows[k], spike, threshold))
            ==> fraction_defined((#[trigger] rows[i]).high, rows[i].low, rows[i].close)
}

pub open spec fn closes_above(rows: Seq<OhlcvRow>, p: int) -> bool {
    exists|i: int| 0 <= i < rows.len() && (#[trigger] rows[i]).close@ > p
}

pub open spec fn closes_below(rows: Seq<OhlcvRow>, p: int) -> bool {
    exists|i: int| 0 <= i < rows.len() && (#[trigger] rows[i]).close@ < p
}

/// The classification of a sweep: outcome, magnitude and explanation.
/// An event without a direction (`None`) stays pending.
pub open spec fn sweep_verdict(
    dir: Option<SweepDirection>,
    level: Option<Dec>,
    reference: int,
    up: Dec,
    down: Dec,
    threshold: int,
    rows: Seq<OhlcvRow>,
    absorbed: bool,
) -> Option<(OutcomeKind, Dec, Option<Seq<char>>)> {
    match dir {
        None => None,
        Some(d) => {
            let bullish = d == SweepDirection::Bullish;
            // A bullish sweep is expected to be followed by a rise.
            let rev = if bullish { up } else { down };
            let cont = if bullish { down } else { up };
            let reclaim = match level {
                None => false,
                Some(lp) => if bullish {
                    down@ > threshold && reference > lp@ && closes_below(rows, lp@)
                } else {
                    up@ > threshold && reference < lp@ && closes_above(rows, lp@)
                },
            };
            let larger = if cont@ < rev@ { rev } else { cont };
            Some(
                if reclaim {
                    (OutcomeKind::ReclaimAnomaly, rev, Some(reclaim_note()))
                } else if absorbed && rev@ < threshold && cont@ < threshold {
                    (OutcomeKind::AbsorptionDetected, larger, Some(sweep_absorbed_note()))
                } else if rev@ >= threshold && rev@ > cont@ {
                    (OutcomeKind::ReversalFollowed, rev, None)
                } else if cont@ >= threshold && cont@ > rev@ {
                    (OutcomeKind::ContinuationFollowed, cont, Some(continued_note(bullish)))
                } else if rev@ < threshold && cont@ < threshold {
                    (OutcomeKind::ExhaustionDetected, larger, Some(stalled_note()))
                } else {
                    (OutcomeKind::ExpectationFailed, larger, Some(ambiguous_note()))
                },
            )
        },
    }
}

/// The verdict for a cascade: there is no single expected outcome, the
/// verdict records what happened.
pub open spec fn cascade_verdict(
    dir: Option<CascadeDirection>,
    acceleration: Option<Dec>,
    up: Dec,
    down: Dec,
    threshold: int,
    absorbed: bool,
) -> Option<(OutcomeKind, Dec, Option<Seq<char>>)> {
    match dir {
        None => None,
        Some(d) => {
            // Longs liquidated: price was falling.
            let cont = if d == CascadeDirection::LongLiq { down } else { up };
            let rev = if d == CascadeDirection::LongLiq { up } else { down };
            let larger = if rev@ < cont@ { cont } else { rev };
            let decelerated = acceleration matches Some(va) && va@ < one_units();
            Some(
                if absorbed && cont@ < threshold && rev@ < threshold {
                    (OutcomeKind::AbsorptionDetected, larger, Some(cascade_absorbed_note()))
                } else if decelerated && cont@ < threshold && rev@ < threshold {
                    (OutcomeKind::ExhaustionDetected, larger, Some(decelerated_note()))
                } else if rev@ >= threshold && rev@ > cont@ {
                    (OutcomeKind::ReversalFollowed, rev, Some(squeeze_note()))
                } else if cont@ >= threshold {
                    (OutcomeKind::ContinuationFollowed, cont, None)
                } else {
                    (OutcomeKind::ExpectationFailed, larger, Some(unclear_note()))
                },
            )
        },
    }
}

pub open spec fn reclaim_note() -> Seq<char> {
    "price reclaimed sweep level against sweep direction"@
}

pub open spec fn sweep_absorbed_note() -> Seq<char> {
    "high-volume, small-range candle absorbed the move"@
}

pub open spec fn continued_note(bullish: bool) -> Seq<char> {
    if bullish {
        "sweep direction continued (down); reversal expectation failed"@
    } else {
        "sweep direction continued (up); reversal expectation failed"@
    }
}

pub open spec fn stalled_note() -> Seq<char> {
    "price stalled; no directional follow-through"@
}

pub open spec fn ambiguous_note() -> Seq<char> {
    "ambiguous outcome; expected reversal did not clearly materialise"@
}

pub open spec fn cascade_absorbed_note() -> Seq<char> {
    "large opposing volume absorbed the cascade"@
}

pub open spec fn decelerated_note() -> Seq<char> {
    "cascade volume decelerated; price stalled"@
}

pub open spec fn squeeze_note() -> Seq<char> {
    "violent reversal after cascade (possible short squeeze / long squeeze)"@
}

pub open spec fn unclear_note() -> Seq<char> {
    "cascade ended without clear continuation or reversal"@
}

/// `d` records the magnitude `magnitude` and the note `note`.
pub open spec fn detail_says(d: OutcomeDetail, magnitude: Dec, note: Option<Seq<char>>) -> bool {
    &&& d.magnitude_pct == Some(magnitude)
    &&& d.duration_ms is None
    &&& d.max_extension is None
    &&& match note {
        None => d.failure_note is None,
        Some(t) => d.failure_note matches Some(s) && s@ == t,
    }
}

/// `r` is the outcome and detail that the verdict `v` calls for.
pub open spec fn reports_verdict(
    r: (OutcomeKind, Option<OutcomeDetail>),
    v: Option<(OutcomeKind, Dec, Option<Seq<char>>)>,
) -> bool {
    match v {
        None => r.0 == OutcomeKind::Pending && r.1 is None,
        Some(x) => r.0 == x.0 && (r.1 matches Some(d) && detail_says(d, x.1, x.2)),
    }
}

/// The price moves are measured from: the close of the triggering candle
/// for a sweep, the start price for a cascade, or else the first open.
pub open spec fn reference_price(e: MarketEvent, rows: Seq<OhlcvRow>) -> Dec {
    let fallback = rows[0].open;
    match e.event_type {
        EventType::LiquiditySweep => match e.close_price {
            Some(p) => p,
            None => fallback,
        },
        EventType::LiquidationCascade => match e.cascade_start_price {
            Some(p) => p,
            None => fallback,
        },
    }
}

/// The verdict for an event observed over `rows`.
pub open spec fn outcome_verdict(e: MarketEvent, cfg: IntervalConfig, rows: Seq<OhlcvRow>) -> Option<
    (OutcomeKind, Dec, Option<Seq<char>>),
> {
    let reference = reference_price(e, rows);
    let rp = reference@;
    let up = up_excursion(reference, rows);
    let down = down_excursion(reference, rows);
    let threshold = cfg.reversal_threshold_frac@;
    let absorbed = absorption(rows, spike_volume(rows, cfg.volume_spike_multiplier)@, threshold);
    match e.event_type {
        EventType::LiquiditySweep => sweep_verdict(
            e.sweep_direction,
            e.level_price,
            rp,
            up,
            down,
            threshold,
            rows,
            absorbed,
        ),
        EventType::LiquidationCascade => cascade_verdict(
            e.cascade_direction,
            e.volume_acceleration,
            up,
            down,
            threshold,
            absorbed,
        ),
    }
}

/// Every decimal of the row lies in the representable range.
pub open spec fn row_wf(r: OhlcvRow) -> bool {
    &&& r.open.wf()
    &&& r.high.wf()
    &&& r.low.wf()
    &&& r.close.wf()
    &&& r.volume.wf()
}

/// The decimals of the event and of the candles are valid.
pub open spec fn outcome_inputs_ok(e: MarketEvent, rows: Seq<OhlcvRow>) -> bool {
    &&& e.level_price matches Some(p) ==> p.wf()
    &&& e.volume_acceleration matches Some(p) ==> p.wf()
    &&& e.close_price matches Some(p) ==> p.wf()
    &&& e.cascade_start_price matches Some(p) ==> p.wf()
    &&& forall|i: int| 0 <= i < rows.len() ==> row_wf(#[trigger] rows[i])
}

/// Every `rust_decimal` operation of an outcome resolution over at least
/// one candle is defined (each would panic otherwise): both excursions,
/// the running volume total, its average and that average times the
/// multiplier, and the range of each candle the scan for absorption
/// reaches.
pub open spec fn outcome_computable(e: MarketEvent, cfg: IntervalConfig, rows: Seq<OhlcvRow>) -> bool {
    rows.len() >= 1 ==> {
        let reference = reference_price(e, rows);
        let m = cfg.volume_spike_multiplier;
        &&& fraction_defined(high_max(rows, reference), reference, reference)
        &&& fraction_defined(reference, low_min(rows, reference), reference)
        &&& volume_opt(rows) is Some
        &&& quotient_opt(rows_volume(rows), count_dec(rows.len())) is Some
        &&& product_opt(rows_average(rows), m) is Some
        &&& ranges_defined(rows, spike_volume(rows, m)@, cfg.reversal_threshold_frac@)
    }
}

// ─── classification ─────────────────────────────────────────────────────────

fn detail(magnitude: Dec, note: Option<String>) -> (d: OutcomeDetail)
    ensures
        d.magnitude_pct == Some(magnitude),
        d.duration_ms is None,
        d.max_extension is None,
        d.failure_note == note,
{
    OutcomeDetail { magnitude_pct: Some(magnitude), duration_ms: None, max_extension: None, failure_note: note }
}

fn note(text: &str) -> (r: Option<String>)
    ensures
        r matches Some(s) && s@ == text@,
{
    Some(text.to_owned())
}

/// Whether some candle closed above `p`.
fn any_close_above(rows: &[OhlcvRow], p: &Dec) -> (r: bool)
    requires
        p.wf(),
        forall|i: int| 0 <= i < rows@.len() ==> (#[trigger] rows@[i]).close.wf(),
    ensures
        r == closes_above(rows@, p@),
{
    let mut i: usize = 0;
    while i < rows.len()
        invariant
            0 <= i <= rows@.len(),
            p.wf(),
            forall|k: int| 0 <= k < rows@.len() ==> (#[trigger] rows@[k]).close.wf(),
            forall|k: int| 0 <= k < i ==> !((#[trigger] rows@[k]).close@ > p@),
        decreases rows@.len() - i,
    {
        if dec_lt(p, &rows[i].close) {
            return true;
        }
        i = i + 1;
    }
    false
}

/// Whether some candle closed below `p`.
fn any_close_below(rows: &[OhlcvRow], p: &Dec) -> (r: bool)
    requires
        p.wf(),
        forall|i: int| 0 <= i < rows@.len() ==> (#[trigger] rows@[i]).close.wf(),
    ensures
        r == closes_below(rows@, p@),
{
    let mut i: usize = 0;
    while i < rows.len()
        invariant
            0 <= i <= rows@.len(),
            p.wf(),
            forall|k: int| 0 <= k < rows@.len() ==> (#[trigger] rows@[k]).close.wf(),
            forall|k: int| 0 <= k < i ==> !((#[trigger] rows@[k]).close@ < p@),
        decreases rows@.len() - i,
    {
        if dec_lt(&rows[i].close, p) {
            return true;
        }
        i = i + 1;
    }
    false
}

/// Classifies what followed a sweep. A bullish sweep expects a rise, a
/// bearish one a fall. In order: a close back across the swept level
/// against the sweep is a reclaim anomaly; an absorbing candle with both
/// moves under the threshold is absorption; a reversal at or over the
/// threshold that beats the continuation is a reversal; the converse is a
/// continuation; both moves under the threshold is exhaustion; anything
/// else failed the expectation.
pub fn classify_sweep_outcome(
    event: &MarketEvent,
    candles: &[OhlcvRow],
    ref_price: Dec,
    up_pct: Dec,
    down_pct: Dec,
    threshold: Dec,
    absorption_candle: bool,
) -> (r: (OutcomeKind, Option<OutcomeDetail>))
    requires
        ref_price.wf(),
        up_pct.wf(),
        down_pct.wf(),
        threshold.wf(),
        event.level_price matches Some(p) ==> p.wf(),
        forall|i: int| 0 <= i < candles@.len() ==> (#[trigger] candles@[i]).close.wf(),
    ensures
        reports_verdict(
            r,
            sweep_verdict(
                event.sweep_direction,
                event.level_price,
                ref_price@,
                up_pct,
                down_pct,
                threshold@,
                candles@,
                absorption_candle,
            ),
        ),
{
    let bullish = match event.sweep_direction {
        Some(SweepDirection::Bullish) => true,
        Some(SweepDirection::Bearish) => false,
        None => {
            return (OutcomeKind::Pending, None);
        },
    };
    let reversal_pct = if bullish { up_pct } else { down_pct };
    let continuation_pct = if bullish { down_pct } else { up_pct };

    let reclaim_anomaly = match event.level_price {
        None => false,
        Some(lp) => if bullish {
            dec_lt(&threshold, &down_pct) && dec_lt(&lp, &ref_price) && any_close_below(candles, &lp)
        } else {
            dec_lt(&threshold, &up_pct) && dec_lt(&ref_price, &lp) && any_close_above(candles, &lp)
        },
    };
    if reclaim_anomaly {
        return (
            OutcomeKind::ReclaimAnomaly,
            Some(detail(reversal_pct, note("price reclaimed sweep level against sweep direction"))),
        );
    }

    let rev_below = dec_lt(&reversal_pct, &threshold);
    let cont_below = dec_lt(&continuation_pct, &threshold);
    let larger = dec_max(reversal_pct, continuation_pct);
    if absorption_candle && rev_below && cont_below {
        return (
            OutcomeKind::AbsorptionDetected,
            Some(detail(larger, note("high-volume, small-range candle absorbed the move"))),
        );
    }
    if !rev_below && dec_lt(&continuation_pct, &reversal_pct) {
        return (OutcomeKind::ReversalFollowed, Some(detail(reversal_pct, None)));
    }
    if !cont_below && dec_lt(&reversal_pct, &continuation_pct) {
        let text = if bullish {
            note("sweep direction continued (down); reversal expectation failed")
        } else {
            note("sweep direction continued (up); reversal expectation failed")
        };
        return (OutcomeKind::ContinuationFollowed, Some(detail(continuation_pct, text)));
    }
    if rev_below && cont_below {
        return (
            OutcomeKind::ExhaustionDetected,
            Some(detail(larger, note("price stalled; no directional follow-through"))),
        );
    }
    (
        OutcomeKind::ExpectationFailed,
        Some(
            detail(
                larger,
                note("ambiguous outcome; expected reversal did not clearly materialise"),
            ),
        ),
    )
}

/// Classifies what followed a cascade, recording what happened: absorption
/// or, with decelerating volume, exhaustion while both moves stay under the
/// threshold; a reversal at or over the threshold that beats the
/// continuation; a continuation at or over the threshold; otherwise an
/// unclear end.
pub fn classify_cascade_outcome(
    event: &MarketEvent,
    cfg: &IntervalConfig,
    up_pct: Dec,
    down_pct: Dec,
    absorption_candle: bool,
) -> (r: (OutcomeKind, Option<OutcomeDetail>))
    requires
        cfg.wf(),
        up_pct.wf(),
        down_pct.wf(),
        event.volume_acceleration matches Some(p) ==> p.wf(),
    ensures
        reports_verdict(
            r,
            cascade_verdict(
                event.cascade_direction,
                event.volume_acceleration,
                up_pct,
                down_pct,
                cfg.reversal_threshold_frac@,
                absorption_candle,
            ),
        ),
{
    let threshold = cfg.reversal_threshold_frac;
    let long_liq = match event.cascade_direction {
        Some(CascadeDirection::LongLiq) => true,
        Some(CascadeDirection::ShortLiq) => false,
        None => {
            return (OutcomeKind::Pending, None);
        },
    };
    let continuation_pct = if long_liq { down_pct } else { up_pct };
    let reversal_pct = if long_liq { up_pct } else { down_pct };

    let cont_below = dec_lt(&continuation_pct, &threshold);
    let rev_below = dec_lt(&reversal_pct, &threshold);
    let larger = dec_max(continuation_pct, reversal_pct);
    if absorption_candle && cont_below && rev_below {
        return (
            OutcomeKind::AbsorptionDetected,
            Some(detail(larger, note("large opposing volume absorbed the cascade"))),
        );
    }

    let vol_decel = match event.volume_acceleration {
        Some(va) => dec_lt(&va, &Dec::one()),
        None => false,
    };
    if vol_decel && cont_below && rev_below {
        return (
            OutcomeKind::ExhaustionDetected,
            Some(detail(larger, note("cascade volume decelerated; price stalled"))),
        );
    }
    if !rev_below && dec_lt(&continuation_pct, &reversal_pct) {
        return (
            OutcomeKind::ReversalFollowed,
            Some(
                detail(
                    reversal_pct,
                    note("violent reversal after cascade (possible short squeeze / long squeeze)"),
                ),
            ),
        );
    }
    if !cont_below {
        return (OutcomeKind::ContinuationFollowed, Some(detail(continuation_pct, None)));
    }
    (
        OutcomeKind::ExpectationFailed,
        Some(detail(larger, note("cascade ended without clear continuation or reversal"))),
    )
}

// ─── resolution ─────────────────────────────────────────────────────────────

/// The highest of `init` and the highs of the rows.
fn highest(rows: &[OhlcvRow], init: Dec) -> (r: Dec)
    requires
        init.wf(),
        forall|i: int| 0 <= i < rows@.len() ==> row_wf(#[trigger] rows@[i]),
    ensures
        r.wf(),
        r == high_max(rows@, init),
{
    let mut acc = init;
    let mut i: usize = 0;
    while i < rows.len()
        invariant
            0 <= i <= rows@.len(),
            forall|k: int| 0 <= k < rows@.len() ==> row_wf(#[trigger] rows@[k]),
            acc.wf(),
            acc == high_max(rows@.take(i as int), init),
        decreases rows@.len() - i,
    {
        assert(rows@.take(i + 1).drop_last() =~= rows@.take(i as int));
        assert(row_wf(rows@[i as int]));
        acc = dec_max(acc, rows[i].high);
        i = i + 1;
    }
    assert(rows@.take(rows@.len() as int) =~= rows@);
    acc
}

/// The lowest of `init` and the lows of the rows.
fn lowest(rows: &[OhlcvRow], init: Dec) -> (r: Dec)
    requires
        init.wf(),
        forall|i: int| 0 <= i < rows@.len() ==> row_wf(#[trigger] rows@[i]),
    ensures
        r.wf(),
        r == low_min(rows@, init),
{
    let mut acc = init;
    let mut i: usize = 0;
    while i < rows.len()
        invariant
            0 <= i <= rows@.len(),
            forall|k: int| 0 <= k < rows@.len() ==> row_wf(#[trigger] rows@[k]),
            acc.wf(),
            acc == low_min(rows@.take(i as int), init),
        decreases rows@.len() - i,
    {
        assert(rows@.take(i + 1).drop_last() =~= rows@.take(i as int));
        assert(row_wf(rows@[i as int]));
        acc = dec_min(acc, rows[i].low);
        i = i + 1;
    }
    assert(rows@.take(rows@.len() as int) =~= rows@);
    acc
}

/// `(hi - lo) / base` for a positive base, zero otherwise.
fn fraction(hi: &Dec, lo: &Dec, base: &Dec) -> (r: Dec)
    requires
        hi.wf(),
        lo.wf(),
        base.wf(),
        fraction_defined(*hi, *lo, *base),
    ensures
        r.wf(),
        r == fraction_of(*hi, *lo, *base),
{
    if dec_lt(&Dec::zero(), base) {
        let diff = dec_sub(hi, lo);
        dec_div(&diff, base)
    } else {
        Dec::zero()
    }
}

/// Whether `(hi - lo) / base` can be computed.
fn fraction_computes(hi: &Dec, lo: &Dec, base: &Dec) -> (r: bool)
    requires
        hi.wf(),
        lo.wf(),
        base.wf(),
    ensures
        r == fraction_defined(*hi, *lo, *base),
{
    if !dec_lt(&Dec::zero(), base) {
        return true;
    }
    match checked_difference(hi, lo) {
        Some(d) => checked_quotient(&d, base).is_some(),
        None => false,
    }
}

proof fn lemma_volume_prefix(rows: Seq<OhlcvRow>, n: int)
    requires
        0 <= n <= rows.len(),
        volume_opt(rows) is Some,
    ensures
        volume_opt(rows.take(n)) is Some,
    decreases rows.len(),
{
    if n < rows.len() {
        assert(rows.drop_last().take(n) =~= rows.take(n));
        lemma_volume_prefix(rows.drop_last(), n);
    } else {
        assert(rows.take(n) =~= rows);
    }
}

/// Total volume of the rows, or `None` where a partial sum overflows.
fn total_volume(rows: &[OhlcvRow]) -> (r: Option<Dec>)
    requires
        forall|i: int| 0 <= i < rows@.len() ==> row_wf(#[trigger] rows@[i]),
    ensures
        r == volume_opt(rows@),
        r matches Some(t) ==> t.wf(),
{
    let mut acc = Dec::zero();
    let mut i: usize = 0;
    assert(rows@.take(0).len() == 0);
    while i < rows.len()
        invariant
            0 <= i <= rows@.len(),
            forall|k: int| 0 <= k < rows@.len() ==> row_wf(#[trigger] rows@[k]),
            acc.wf(),
            volume_opt(rows@.take(i as int)) == Some(acc),
        decreases rows@.len() - i,
    {
        assert(row_wf(rows@[i as int]));
        assert(rows@.take(i + 1).drop_last() =~= rows@.take(i as int));
        assert(rows@.take(i + 1).last() == rows@[i as int]);
        match checked_sum(&acc, &rows[i].volume) {
            Some(t) => {
                acc = t;
            },
            None => {
                proof {
                    assert(volume_opt(rows@.take(i + 1)) is None);
                    if volume_opt(rows@) is Some {
                        lemma_volume_prefix(rows@, i + 1);
                    }
                }
                return None;
            },
        }
        i = i + 1;
    }
    assert(rows@.take(rows@.len() as int) =~= rows@);
    Some(acc)
}

/// Scans the rows in order for a candle whose volume exceeds `spike` and
/// whose range fraction stays under `threshold`, stopping at the first;
/// `None` where a range it reaches cannot be computed.
fn absorption_scan(rows: &[OhlcvRow], spike: &Dec, threshold: &Dec) -> (r: Option<bool>)
    requires
        forall|i: int| 0 <= i < rows@.len() ==> row_wf(#[trigger] rows@[i]),
        spike.wf(),
        threshold.wf(),
    ensures
        r is Some <==> ranges_defined(rows@, spike@, threshold@),
        r matches Some(b) ==> b == absorption(rows@, spike@, threshold@),
{
    let mut i: usize = 0;
    while i < rows.len()
        invariant
            0 <= i <= rows@.len(),
            forall|k: int| 0 <= k < rows@.len() ==> row_wf(#[trigger] rows@[k]),
            spike.wf(),
            threshold.wf(),
            forall|k: int| 0 <= k < i ==> !#[trigger] absorbing(rows@[k], spike@, threshold@),
            forall|k: int|
                0 <= k < i ==> fraction_defined((#[trigger] rows@[k]).high, rows@[k].low, rows@[k].close),
        decreases rows@.len() - i,
    {
        let c = rows[i];
        assert(row_wf(rows@[i as int]));
        if !fraction_computes(&c.high, &c.low, &c.close) {
            proof {
                if ranges_defined(rows@, spike@, threshold@) {
                    assert(fraction_defined(rows@[i as int].high, rows@[i as int].low, rows@[i as int].close));
                }
            }
            return None;
        }
        let range = fraction(&c.high, &c.low, &c.close);
        if dec_lt(spike, &c.volume) && dec_lt(&range, threshold) {
            assert(absorbing(rows@[i as int], spike@, threshold@));
            proof {
                assert forall|j: int|
                    0 <= j < rows@.len() && (forall|k: int|
                        0 <= k < j ==> !#[trigger] absorbing(rows@[k], spike@, threshold@)) implies fraction_defined(
                    (#[trigger] rows@[j]).high,
                    rows@[j].low,
                    rows@[j].close,
                ) by {
                    if j > i {
                        assert(!absorbing(rows@[i as int], spike@, threshold@));
                    }
                }
            }
            return Some(true);
        }
        i = i + 1;
    }
    proof {
        assert forall|j: int|
            0 <= j < rows@.len() && (forall|k: int|
                0 <= k < j ==> !#[trigger] absorbing(rows@[k], spike@, threshold@)) implies fraction_defined(
            (#[trigger] rows@[j]).high,
            rows@[j].low,
            rows@[j].close,
        ) by {}
    }
    Some(false)
}

/// The price the moves are measured from.
fn reference_of(event: &MarketEvent, candles: &[OhlcvRow]) -> (r: Dec)
    requires
        candles@.len() >= 1,
        outcome_inputs_ok(*event, candles@),
    ensures
        r.wf(),
        r == reference_price(*event, candles@),
{
    assert(row_wf(candles@[0]));
    let fallback = candles[0].open;
    match event.event_type {
        EventType::LiquiditySweep => match event.close_price {
            Some(p) => p,
            None => fallback,
        },
        EventType::LiquidationCascade => match event.cascade_start_price {
            Some(p) => p,
            None => fallback,
        },
    }
}

/// Whether the decimals of the event and of the candles are valid.
pub fn outcome_inputs_valid(event: &MarketEvent, candles: &[OhlcvRow]) -> (r: bool)
    ensures
        r == outcome_inputs_ok(*event, candles@),
{
    let opt_ok = |p: &Option<Dec>| -> (b: bool)
        ensures
            b == (p matches Some(x) ==> x.wf()),
        {
            match p {
                Some(x) => x.is_wf(),
                None => true,
            }
        };
    if !(opt_ok(&event.level_price) && opt_ok(&event.volume_acceleration) && opt_ok(&event.close_price) && opt_ok(
        &event.cascade_start_price,
    )) {
        return false;
    }
    let mut i: usize = 0;
    while i < candles.len()
        invariant
            0 <= i <= candles@.len(),
            forall|k: int| 0 <= k < i ==> row_wf(#[trigger] candles@[k]),
        decreases candles@.len() - i,
    {
        let c = candles[i];
        if !(c.open.is_wf() && c.high.is_wf() && c.low.is_wf() && c.close.is_wf() && c.volume.is_wf()) {
            assert(!row_wf(candles@[i as int]));
            return false;
        }
        i = i + 1;
    }
    true
}

/// The outcome of an event at the end of its observation window, from the
/// candles that followed it: `None` when there are none (the event
/// expires), else the classification of the moves away from the reference
/// price.
pub fn resolve_outcome(event: &MarketEvent, cfg: &IntervalConfig, candles: &[OhlcvRow]) -> (r: Option<
    (OutcomeKind, Option<OutcomeDetail>),
>)
    requires
        cfg.wf(),
        outcome_inputs_ok(*event, candles@),
        outcome_computable(*event, *cfg, candles@),
    ensures
        r is None <==> candles@.len() == 0,
        r matches Some(x) ==> reports_verdict(x, outcome_verdict(*event, *cfg, candles@)),
{
    if candles.len() == 0 {
        return None;
    }
    let ref_price = reference_of(event, candles);
    let max_high = highest(candles, ref_price);
    let min_low = lowest(candles, ref_price);
    let up_pct = fraction(&max_high, &ref_price, &ref_price);
    let down_pct = fraction(&ref_price, &min_low, &ref_price);
    let threshold = cfg.reversal_threshold_frac;
    let total = total_volume(candles).unwrap();
    let avg = dec_div(&total, &Dec::from_usize(candles.len()));
    let spike = dec_mul(&avg, &cfg.volume_spike_multiplier);
    let absorption_candle = absorption_scan(candles, &spike, &threshold).unwrap();
    let verdict = match event.event_type {
        EventType::LiquiditySweep => classify_sweep_outcome(
            event,
            candles,
            ref_price,
            up_pct,
            down_pct,
            threshold,
            absorption_candle,
        ),
        EventType::LiquidationCascade => classify_cascade_outcome(
            event,
            cfg,
            up_pct,
            down_pct,
            absorption_candle,
        ),
    };
    Some(verdict)
}

/// `resolve_outcome` for inputs with valid decimals, or `None` where one of
/// its `rust_decimal` operations would overflow.
pub fn resolve_outcome_checked(event: &MarketEvent, cfg: &IntervalConfig, candles: &[OhlcvRow]) -> (r: Option<
    Option<(OutcomeKind, Option<OutcomeDetail>)>,
>)
    requires
        cfg.wf(),
        outcome_inputs_ok(*event, candles@),
    ensures
        r is Some <==> outcome_computable(*event, *cfg, candles@),
        r matches Some(o) ==> (o is None <==> candles@.len() == 0) && (o matches Some(x) ==> reports_verdict(
            x,
            outcome_verdict(*event, *cfg, candles@),
        )),
{
    if candles.len() >= 1 {
        let ref_price = reference_of(event, candles);
        let max_high = highest(candles, ref_price);
        let min_low = lowest(candles, ref_price);
        if !(fraction_computes(&max_high, &ref_price, &ref_price) && fraction_computes(
            &ref_price,
            &min_low,
            &ref_price,
        )) {
            return None;
        }
        let total = match total_volume(candles) {
            Some(t) => t,
            None => {
                return None;
            },
        };
        let avg = match checked_quotient(&total, &Dec::from_usize(candles.len())) {
            Some(a) => a,
            None => {
                return None;
            },
        };
        let spike = match checked_product(&avg, &cfg.volume_spike_multiplier) {
            Some(x) => x,
            None => {
                return None;
            },
        };
        if absorption_scan(candles, &spike, &cfg.reversal_threshold_frac).is_none() {
            return None;
        }
    }
    Some(resolve_outcome(event, cfg, candles))
}

// ─── cascade guard ──────────────────────────────────────────────────────────

/// The first `n` rows all closed below their open.
pub open spec fn first_bearish(rows: Seq<OhlcvRow>, n: int) -> bool {
    forall|i: int| 0 <= i < n ==> (#[trigger] rows[i]).close@ < rows[i].open@
}

/// The first `n` rows all closed above their open.
pub open spec fn first_bullish(rows: Seq<OhlcvRow>, n: int) -> bool {
    forall|i: int| 0 <= i < n ==> (#[trigger] rows[i]).close@ > rows[i].open@
}

/// The guard window after a sweep holds a full cascade window running in
/// the sweep's own direction: price kept falling after a bearish sweep, or
/// kept rising after a bullish one.
pub open spec fn reclassifies(e: MarketEvent, cfg: IntervalConfig, rows: Seq<OhlcvRow>) -> bool {
    let n = cfg.cascade_sustain_candles as int;
    &&& rows.len() >= n
    &&& {
        ||| e.sweep_direction == Some(SweepDirection::Bearish) && first_bearish(rows, n)
        ||| e.sweep_direction == Some(SweepDirection::Bullish) && first_bullish(rows, n)
    }
}

/// `s` is the cascade event that replaces the sweep `e`, built from the
/// guard window `rows`. OHLCV rows carry no liquidation counts, so the
/// successor records none.
pub open spec fn successor_of(s: MarketEvent, e: MarketEvent, cfg: IntervalConfig, rows: Seq<OhlcvRow>) -> bool {
    let n = cfg.cascade_sustain_candles as int;
    let first = rows[0];
    let last = rows[n - 1];
    &&& s.id is None
    &&& s.coin == e.coin
    &&& s.interval == e.interval
    &&& s.event_type == EventType::LiquidationCascade
    &&& s.lifecycle == EventLifecycle::Confirming
    &&& s.source == crate::detection::types::EventSource::Live
    &&& s.sweep_direction is None
    &&& s.level_price is None
    &&& s.sweep_extreme is None
    &&& s.wick_pct is None
    &&& s.close_price is None
    &&& s.cascade_direction == Some(
        if first_bearish(rows, n) {
            CascadeDirection::LongLiq
        } else {
            CascadeDirection::ShortLiq
        },
    )
    &&& s.cascade_start_price == Some(first.open)
    &&& s.liq_count_total == Some(0i32)
    &&& s.candles_sustained == Some(n as i32)
    &&& s.volume_acceleration matches Some(a) && a.wf() && a == (if first.volume@ == 0 {
        Dec { mantissa: 1, scale: 0 }
    } else {
        quotient_of(last.volume, first.volume)
    })
    &&& s.event_ts_ms == first.bucket_ms
    &&& s.candle_volume == last.volume
    &&& s.htf_confluence@.len() == 0
    &&& s.outcome == OutcomeKind::Pending
    &&& s.outcome_detail is None
    &&& s.outcome_resolved_ts is None
    &&& s.regime is None
    &&& s.reclassified_from == e.id
}

/// The volume acceleration of a reclassified guard window, the last
/// volume over a non-zero first, is defined (`rust_decimal` would panic
/// otherwise).
pub open spec fn acceleration_fits(e: MarketEvent, cfg: IntervalConfig, rows: Seq<OhlcvRow>) -> bool {
    let n = cfg.cascade_sustain_candles as int;
    reclassifies(e, cfg, rows) && rows[0].volume@ != 0 ==> quotient_opt(rows[n - 1].volume, rows[0].volume) is Some
}

/// Whether the first `n` rows all closed below (`down`) or above their
/// open.
fn first_close(rows: &[OhlcvRow], n: usize, down: bool) -> (r: bool)
    requires
        n <= rows@.len(),
        forall|i: int| 0 <= i < rows@.len() ==> row_wf(#[trigger] rows@[i]),
    ensures
        r == (if down { first_bearish(rows@, n as int) } else { first_bullish(rows@, n as int) }),
{
    let mut i: usize = 0;
    while i < n
        invariant
            0 <= i <= n,
            n <= rows@.len(),
            forall|k: int| 0 <= k < rows@.len() ==> row_wf(#[trigger] rows@[k]),
            forall|k: int| 0 <= k < i ==> (if down {
                (#[trigger] rows@[k]).close@ < rows@[k].open@
            } else {
                rows@[k].close@ > rows@[k].open@
            }),
        decreases n - i,
    {
        let c = rows[i];
        assert(row_wf(rows@[i as int]));
        let ok = if down {
            dec_lt(&c.close, &c.open)
        } else {
            dec_lt(&c.open, &c.close)
        };
        if !ok {
            return false;
        }
        i = i + 1;
    }
    true
}

/// The cascade guard's decision for a stored sweep, from the candles of the
/// guard window: the successor cascade event when the sweep turns out to
/// be the start of a cascade in its own direction, else `None`. The caller
/// marks the sweep reclassified and stores the successor.
pub fn cascade_successor(event: &MarketEvent, cfg: &IntervalConfig, candles: &[OhlcvRow]) -> (r: Option<
    MarketEvent,
>)
    requires
        event.id is Some,
        cfg.wf(),
        forall|i: int| 0 <= i < candles@.len() ==> row_wf(#[trigger] candles@[i]),
        acceleration_fits(*event, *cfg, candles@),
    ensures
        r is Some <==> reclassifies(*event, *cfg, candles@),
        r matches Some(s) ==> successor_of(s, *event, *cfg, candles@),
{
    let n = cfg.cascade_sustain_candles;
    if candles.len() < n {
        return None;
    }
    let all_bearish = first_close(candles, n, true);
    let all_bullish = first_close(candles, n, false);
    proof {
        // A window of at least one candle cannot close both ways.
        if all_bearish && all_bullish {
            assert(candles@[0].close@ < candles@[0].open@);
            assert(candles@[0].close@ > candles@[0].open@);
        }
    }
    if !all_bearish && !all_bullish {
        return None;
    }
    let cascade_matches_sweep = match event.sweep_direction {
        Some(SweepDirection::Bearish) => all_bearish,
        Some(SweepDirection::Bullish) => !all_bearish,
        None => false,
    };
    if !cascade_matches_sweep {
        return None;
    }

    let first = candles[0];
    let last = candles[n - 1];
    assert(row_wf(candles@[n - 1]));
    assert(row_wf(candles@[0]));
    let vol_accel = if dec_eq(&first.volume, &Dec::zero()) {
        Dec::one()
    } else {
        dec_div(&last.volume, &first.volume)
    };
    let cascade_dir = if all_bearish {
        CascadeDirection::LongLiq
    } else {
        CascadeDirection::ShortLiq
    };
    let mut successor = MarketEvent::new_cascade(
        event.coin.clone(),
        event.interval.clone(),
        cascade_dir,
        first.open,
        0,
        n as i32,
        vol_accel,
        last.volume,
        first.bucket_ms,
    );
    successor.reclassified_from = event.id;
    successor.lifecycle = EventLifecycle::Confirming;
    Some(successor)
}

/// `cascade_successor` for candles with valid decimals, or `None` where
/// the volume acceleration would overflow.
pub fn cascade_successor_checked(event: &MarketEvent, cfg: &IntervalConfig, candles: &[OhlcvRow]) -> (r: Option<
    Option<MarketEvent>,
>)
    requires
        event.id is Some,
        cfg.wf(),
        forall|i: int| 0 <= i < candles@.len() ==> row_wf(#[trigger] candles@[i]),
    ensures
        r is Some <==> acceleration_fits(*event, *cfg, candles@),
        r matches Some(o) ==> (o is Some <==> reclassifies(*event, *cfg, candles@)) && (o matches Some(s)
            ==> successor_of(s, *event, *cfg, candles@)),
{
    let n = cfg.cascade_sustain_candles;
    if candles.len() >= n {
        let same_way = match event.sweep_direction {
            Some(SweepDirection::Bearish) => first_close(candles, n, true),
            Some(SweepDirection::Bullish) => first_close(candles, n, false),
            None => false,
        };
        if same_way {
            assert(row_wf(candles@[0]));
            assert(row_wf(candles@[n - 1]));
            if !dec_eq(&candles[0].volume, &Dec::zero()) && checked_quotient(
                &candles[n - 1].volume,
                &candles[0].volume,
            ).is_none() {
                return None;
            }
        }
    }
    Some(cascade_successor(event, cfg, candles))
}

// ─── timing and steps ───────────────────────────────────────────────────────

/// The length of the cascade guard: `cascade_guard_candles` intervals.
pub open spec fn guard_span(cfg: IntervalConfig) -> int {
    cfg.cascade_guard_candles * cfg.interval_ms
}

/// The parameters keep every time computed from them within `i64`.
pub open spec fn times_fit(cfg: IntervalConfig) -> bool {
    guard_span(cfg) <= i64::MAX
}

/// How long the guard waits after the event.
pub fn guard_wait_ms(cfg: &IntervalConfig) -> (r: i64)
    requires
        cfg.wf(),
        times_fit(*cfg),
    ensures
        r == guard_span(*cfg),
        r >= 0,
{
    proof {
        assert(cfg.cascade_guard_candles * cfg.interval_ms >= 0) by (nonlinear_arith)
            requires
                cfg.interval_ms > 0,
        ;
    }
    (cfg.cascade_guard_candles as i64) * cfg.interval_ms
}

/// How long the tracker still waits before resolving the outcome: the
/// outcome window less the part of it the guard already spent.
pub fn remaining_wait_ms(cfg: &IntervalConfig) -> (r: i64)
    requires
        cfg.wf(),
        times_fit(*cfg),
    ensures
        r == cfg.outcome_window_ms - (if guard_span(*cfg) < cfg.outcome_window_ms {
            guard_span(*cfg)
        } else {
            cfg.outcome_window_ms as int
        }),
        0 <= r <= cfg.outcome_window_ms,
{
    let guard = guard_wait_ms(cfg);
    let spent = if guard < cfg.outcome_window_ms {
        guard
    } else {
        cfg.outcome_window_ms
    };
    cfg.outcome_window_ms - spent
}

/// The candle times the guard examines: from the interval after the
/// triggering candle up to the end of the guard.
pub fn guard_range(event_ts_ms: i64, cfg: &IntervalConfig) -> (r: (i64, i64))
    requires
        cfg.wf(),
        times_fit(*cfg),
        i64::MIN <= event_ts_ms + cfg.interval_ms <= i64::MAX,
        i64::MIN <= event_ts_ms + guard_span(*cfg) <= i64::MAX,
    ensures
        r.0 == event_ts_ms + cfg.interval_ms,
        r.1 == event_ts_ms + guard_span(*cfg),
{
    let guard = guard_wait_ms(cfg);
    (event_ts_ms + cfg.interval_ms, event_ts_ms + guard)
}

/// The candle times the outcome is read from: from the interval after the
/// triggering candle to the end of the outcome window.
pub fn followup_range(event_ts_ms: i64, cfg: &IntervalConfig) -> (r: (i64, i64))
    requires
        cfg.wf(),
        i64::MIN <= event_ts_ms + cfg.interval_ms <= i64::MAX,
        i64::MIN <= event_ts_ms + cfg.outcome_window_ms <= i64::MAX,
    ensures
        r.0 == event_ts_ms + cfg.interval_ms,
        r.1 == event_ts_ms + cfg.outcome_window_ms,
{
    (event_ts_ms + cfg.interval_ms, event_ts_ms + cfg.outcome_window_ms)
}

/// What the cascade guard found.
#[derive(Clone, Copy, Debug, PartialEq, Eq, Structural)]
pub enum GuardResult {
    Reclassified,
    Kept,
    Failed,
}

/// What just happened to a tracked event.
#[derive(Clone, Copy, Debug, PartialEq, Eq, Structural)]
pub enum TrackerEvent {
    /// The tracker was started.
    Spawned,
    /// The cascade guard ran.
    GuardChecked(GuardResult),
    /// Resolving the outcome succeeded or failed.
    OutcomeResolved(bool),
}

/// What the tracker does next.
#[derive(Clone, Copy, Debug, PartialEq, Eq, Structural)]
pub enum TrackerStep {
    /// Tracking ends.
    Stop,
    /// Wait this many milliseconds, then run the cascade guard.
    CheckGuardAfter(i64),
    /// Wait this many milliseconds (if positive), then resolve the outcome.
    ResolveAfter(i64),
    /// Mark the event expired so that it does not stay in observation.
    MarkExpired,
}

/// The tracker's next step. An event that was never stored is not
/// tracked. A sweep first waits out the cascade guard; a reclassified
/// sweep is done, as its successor is tracked instead; anything else waits
/// for the rest of the outcome window and is resolved, and a failed
/// resolution expires the event.
pub fn tracker_step(event_id: Option<i64>, event_type: EventType, cfg: &IntervalConfig, ev: TrackerEvent) -> (r:
    TrackerStep)
    requires
        cfg.wf(),
        times_fit(*cfg),
    ensures
        r == (match ev {
            TrackerEvent::Spawned => if event_id is None {
                TrackerStep::Stop
            } else if event_type == EventType::LiquiditySweep {
                TrackerStep::CheckGuardAfter(guard_span(*cfg) as i64)
            } else {
                TrackerStep::ResolveAfter(
                    (cfg.outcome_window_ms - (if guard_span(*cfg) < cfg.outcome_window_ms {
                        guard_span(*cfg)
                    } else {
                        cfg.outcome_window_ms as int
                    })) as i64,
                )
            },
            TrackerEvent::GuardChecked(g) => if g == GuardResult::Reclassified {
                TrackerStep::Stop
            } else {
                TrackerStep::ResolveAfter(
                    (cfg.outcome_window_ms - (if guard_span(*cfg) < cfg.outcome_window_ms {
                        guard_span(*cfg)
                    } else {
                        cfg.outcome_window_ms as int
                    })) as i64,
                )
            },
            TrackerEvent::OutcomeResolved(ok) => if ok {
                TrackerStep::Stop
            } else {
                TrackerStep::MarkExpired
            },
        }),
{
    match ev {
        TrackerEvent::Spawned => {
            if event_id.is_none() {
                TrackerStep::Stop
            } else {
                match event_type {
                    EventType::LiquiditySweep => TrackerStep::CheckGuardAfter(guard_wait_ms(cfg)),
                    EventType::LiquidationCascade => TrackerStep::ResolveAfter(remaining_wait_ms(cfg)),
                }
            }
        },
        TrackerEvent::GuardChecked(g) => match g {
            GuardResult::Reclassified => TrackerStep::Stop,
            _ => TrackerStep::ResolveAfter(remaining_wait_ms(cfg)),
        },
        TrackerEvent::OutcomeResolved(ok) => if ok {
            TrackerStep::Stop
        } else {
            TrackerStep::MarkExpired
        },
    }
}

/// The guard and the rest of the wait add up to the outcome window: when
/// the guard is no longer than the window the outcome is resolved exactly
/// when the window closes, and otherwise right after the guard.
pub proof fn law_waits_cover_window(cfg: IntervalConfig)
    requires
        cfg.wf(),
    ensures
        guard_span(cfg) <= cfg.outcome_window_ms ==> guard_span(cfg) + (cfg.outcome_window_ms - guard_span(cfg))
            == cfg.outcome_window_ms,
        guard_span(cfg) >= cfg.outcome_window_ms ==> cfg.outcome_window_ms - (if guard_span(cfg)
            < cfg.outcome_window_ms {
            guard_span(cfg)
        } else {
            cfg.outcome_window_ms as int
        }) == 0,
{
}

/// A bullish and a bearish sweep that saw mirrored moves (the rise of one
/// the fall of the other) without a level to reclaim get the same outcome
/// with the same magnitude.
pub proof fn law_sweep_verdict_mirror(
    reference: int,
    up: Dec,
    down: Dec,
    threshold: int,
    rows: Seq<OhlcvRow>,
    absorbed: bool,
)
    ensures
        ({
            let bull = sweep_verdict(Some(SweepDirection::Bullish), None, reference, up, down, threshold, rows, absorbed);
            let bear = sweep_verdict(Some(SweepDirection::Bearish), None, reference, down, up, threshold, rows, absorbed);
            &&& bull is Some && bear is Some
            &&& bull.unwrap().0 == bear.unwrap().0
            &&& bull.unwrap().1 == bear.unwrap().1
        }),
{
}

/// A reversal is only recorded when the reversal move reached the
/// threshold and beat the continuation; a continuation only when the
/// continuation did.
pub proof fn law_reversal_needs_threshold(
    dir: SweepDirection,
    level: Option<Dec>,
    reference: int,
    up: Dec,
    down: Dec,
    threshold: int,
    rows: Seq<OhlcvRow>,
    absorbed: bool,
)
    ensures
        ({
            let v = sweep_verdict(Some(dir), level, reference, up, down, threshold, rows, absorbed).unwrap();
            let rev = if dir == SweepDirection::Bullish { up } else { down };
            let cont = if dir == SweepDirection::Bullish { down } else { up };
            &&& v.0 == OutcomeKind::ReversalFollowed ==> rev@ >= threshold && rev@ > cont@ && v.1 == rev
            &&& v.0 == OutcomeKind::ContinuationFollowed ==> cont@ >= threshold && cont@ > rev@ && v.1 == cont
        }),
{
}

/// A cascade's outcome says price stalled (exhaustion or absorption) only
/// when both moves stayed under the reversal threshold, whatever the volume
/// acceleration; once the move in the cascade's direction reaches the
/// threshold, the outcome is a continuation of that size, or a reversal
/// when the move back is larger still.
pub proof fn law_cascade_stall_needs_small_moves(
    dir: CascadeDirection,
    acceleration: Option<Dec>,
    up: Dec,
    down: Dec,
    threshold: int,
    absorbed: bool,
)
    ensures
        ({
            let v = cascade_verdict(Some(dir), acceleration, up, down, threshold, absorbed).unwrap();
            let cont = if dir == CascadeDirection::LongLiq { down } else { up };
            let rev = if dir == CascadeDirection::LongLiq { up } else { down };
            &&& v.0 == OutcomeKind::ExhaustionDetected || v.0 == OutcomeKind::AbsorptionDetected ==> up@
                < threshold && down@ < threshold
            &&& cont@ >= threshold ==> (v.0 == OutcomeKind::ContinuationFollowed && v.1 == cont) || (v.0
                == OutcomeKind::ReversalFollowed && v.1 == rev && rev@ > cont@)
        }),
{
}
} // verus!
