//! Detection over a past UTC day: candles fetched from the exchange,
//! starting early enough to warm up the swing window, are replayed through
//! fresh detectors, and the detections of candles within the day are kept.
//! OHLCV candles carry no liquidation counts, so only sweeps can come out
//! of a replay.

use vstd::prelude::*;
use vstd::string::{StrSliceExecFns, StringExecFns};
use chrono::{Datelike, NaiveDate};
use crate::db::trades::OhlcvRow;
use crate::detection::candle_builder::Candle;
use crate::detection::cascade_detector::{RawCascade, liq_fits, liq_total};
use crate::detection::sweep_detector::rolled;
use crate::detection::interval_config::IntervalConfig;
use crate::detection::pipeline::{CandleDetections, Detectors, detectors_step, detections_compute};
use crate::detection::sweep_detector::RawSweep;

verus! {

/// Milliseconds in a day.
pub const DAY_MS: i64 = 86_400_000;

/// The exclusive end of the day that starts at `start_ms`.
pub fn day_end(start_ms: i64) -> (r: i64)
    requires
        start_ms + DAY_MS <= i64::MAX,
    ensures
        r == start_ms + DAY_MS,
{
    start_ms + DAY_MS
}

/// Where the fetch starts: `2 * lookback + 2` candles before the day, so
/// that the swing window is full when the day begins.
pub fn warmup_fetch_start(start_ms: i64, cfg: &IntervalConfig) -> (r: i64)
    requires
        cfg.wf(),
        (cfg.swing_lookback * 2 + 2) * cfg.interval_ms <= i64::MAX,
        i64::MIN <= start_ms - (cfg.swing_lookback * 2 + 2) * cfg.interval_ms,
    ensures
        r == start_ms - (cfg.swing_lookback * 2 + 2) * cfg.interval_ms,
{
    proof {
        assert((cfg.swing_lookback * 2 + 2) * cfg.interval_ms >= 0) by (nonlinear_arith)
            requires
                cfg.interval_ms > 0,
        ;
    }
    let warmup_candles = (cfg.swing_lookback * 2 + 2) as i64;
    start_ms - warmup_candles * cfg.interval_ms
}

/// The candle a fetched row stands for; OHLCV rows carry no trade or
/// liquidation counts.
pub open spec fn row_candle(r: OhlcvRow) -> Candle {
    Candle {
        bucket_ms: r.bucket_ms,
        open: r.open,
        high: r.high,
        low: r.low,
        close: r.close,
        volume: r.volume,
        trade_count: 0,
        liq_count: 0,
    }
}

pub fn candle_from_row(r: &OhlcvRow) -> (c: Candle)
    ensures
        c == row_candle(*r),
{
    Candle {
        bucket_ms: r.bucket_ms,
        open: r.open,
        high: r.high,
        low: r.low,
        close: r.close,
        volume: r.volume,
        trade_count: 0,
        liq_count: 0,
    }
}

/// Feeding the rows' candles one by one to the detectors moves them
/// through `states`, from the first to the last, with the per-candle
/// detections `outs`.
pub open spec fn chain(
    states: Seq<Detectors>,
    rows: Seq<OhlcvRow>,
    outs: Seq<(Seq<RawSweep>, Option<RawCascade>)>,
) -> bool {
    &&& states.len() == rows.len() + 1
    &&& outs.len() == rows.len()
    &&& forall|i: int|
        #![trigger outs[i]]
        0 <= i < rows.len() ==> detectors_step(
            states[i],
            states[i + 1],
            row_candle(rows[i]),
            outs[i].0,
            outs[i].1,
        )
}

/// The detections of the candles that open at or after `start_ms`, in
/// order, each with its candle.
pub open spec fn in_day(
    rows: Seq<OhlcvRow>,
    outs: Seq<(Seq<RawSweep>, Option<RawCascade>)>,
    start_ms: i64,
) -> Seq<(Candle, Seq<RawSweep>, Option<RawCascade>)>
    decreases rows.len(),
{
    if rows.len() == 0 || outs.len() == 0 {
        seq![]
    } else {
        let prev = in_day(rows.drop_last(), outs.drop_last(), start_ms);
        if rows.last().bucket_ms < start_ms {
            prev
        } else {
            prev.push((row_candle(rows.last()), outs.last().0, outs.last().1))
        }
    }
}

/// A window without liquidation trades totals none.
proof fn lemma_no_liquidations(w: Seq<Candle>)
    requires
        forall|j: int| 0 <= j < w.len() ==> (#[trigger] w[j]).liq_count == 0,
    ensures
        liq_total(w) == 0,
    decreases w.len(),
{
    if w.len() > 0 {
        assert forall|j: int| 0 <= j < w.drop_last().len() implies (#[trigger] w.drop_last()[j]).liq_count == 0 by {
            assert(w.drop_last()[j] == w[j]);
        }
        lemma_no_liquidations(w.drop_last());
    }
}

/// Rolling a candle without liquidations into such a window keeps it so.
proof fn lemma_rolled_no_liquidations(h: Seq<Candle>, c: Candle, cap: int)
    requires
        forall|j: int| 0 <= j < h.len() ==> (#[trigger] h[j]).liq_count == 0,
        c.liq_count == 0,
    ensures
        forall|j: int| 0 <= j < rolled(h, c, cap).len() ==> (#[trigger] rolled(h, c, cap)[j]).liq_count == 0,
{
    let p = h.push(c);
    assert forall|j: int| 0 <= j < p.len() implies (#[trigger] p[j]).liq_count == 0 by {
        if j < h.len() {
            assert(p[j] == h[j]);
        }
    }
    if p.len() > cap {
        assert forall|j: int| 0 <= j < p.subrange(1, p.len() as int).len() implies (#[trigger] p.subrange(1, p.len() as int)[j]).liq_count == 0 by {
            assert(p.subrange(1, p.len() as int)[j] == p[j + 1]);
        }
    }
}

/// Replays the fetched rows through fresh detectors. Every candle feeds
/// the detectors so that their windows warm up; only the detections of
/// candles within the day (opening at or after `start_ms`) are returned.
/// The rows carry no liquidation counts, so no cascade comes out.
pub fn replay(cfg: &IntervalConfig, start_ms: i64, rows: &[OhlcvRow]) -> (r: Vec<CandleDetections>)
    requires
        cfg.wf(),
    ensures
        forall|k: int| 0 <= k < r@.len() ==> (#[trigger] r@[k]).cascade is None,
        exists|states: Seq<Detectors>, outs: Seq<(Seq<RawSweep>, Option<RawCascade>)>| {
            &&& states[0].fresh_for(*cfg)
            &&& #[trigger] chain(states, rows@, outs)
            &&& {
                let kept = in_day(rows@, outs, start_ms);
                &&& r@.len() == kept.len()
                &&& forall|k: int| 0 <= k < kept.len() ==> {
                    &&& (#[trigger] r@[k]).candle == kept[k].0
                    &&& r@[k].sweeps@ == kept[k].1
                    &&& r@[k].cascade == kept[k].2
                }
            }
        },
{
    let mut detectors = Detectors::new(cfg);
    let ghost mut states: Seq<Detectors> = seq![detectors];
    let ghost mut outs: Seq<(Seq<RawSweep>, Option<RawCascade>)> = seq![];
    let mut kept: Vec<CandleDetections> = Vec::new();
    let mut i: usize = 0;
    while i < rows.len()
        invariant
            0 <= i <= rows@.len(),
            states[0].fresh_for(*cfg),
            detectors.wf(),
            chain(states, rows@.take(i as int), outs),
            states.last() == detectors,
            !detectors.halted() ==> forall|j: int| 0 <= j < detectors.cascade().candles().len() ==>
                (#[trigger] detectors.cascade().candles()[j]).liq_count == 0,
            forall|k: int| 0 <= k < kept@.len() ==> (#[trigger] kept@[k]).cascade is None,
            ({
                let want = in_day(rows@.take(i as int), outs, start_ms);
                &&& kept@.len() == want.len()
                &&& forall|k: int| 0 <= k < want.len() ==> {
                    &&& (#[trigger] kept@[k]).candle == want[k].0
                    &&& kept@[k].sweeps@ == want[k].1
                    &&& kept@[k].cascade == want[k].2
                }
            }),
        decreases rows@.len() - i,
    {
        let ghost prev_states = states;
        let ghost prev_outs = outs;
        let ghost before_kept = kept@;
        let candle = candle_from_row(&rows[i]);
        let ghost before = detectors;
        let (sweeps, cascade) = detectors.push(candle);
        proof {
            if !before.halted() {
                lemma_rolled_no_liquidations(
                    before.cascade().candles(),
                    candle,
                    before.cascade().sustain() as int,
                );
            }
            if !before.halted() && candle.wf() && detections_compute(before, detectors, candle) && liq_fits(
                before.cascade(),
                candle,
            ) {
                lemma_no_liquidations(detectors.cascade().candles());
            }
        }
        proof {
            outs = outs.push((sweeps@, cascade));
            states = states.push(detectors);
            let pre = rows@.take(i + 1);
            assert forall|j: int| #![trigger outs[j]] 0 <= j < pre.len() implies detectors_step(
                states[j],
                states[j + 1],
                row_candle(pre[j]),
                outs[j].0,
                outs[j].1,
            ) by {
                if j < i {
                    assert(outs[j] == prev_outs[j]);
                    assert(pre[j] == rows@.take(i as int)[j]);
                    assert(prev_outs[j] == prev_outs[j]);
                }
            }
        }
        if candle.bucket_ms >= start_ms {
            kept.push(CandleDetections { candle, sweeps, cascade });
        }
        proof {
            let pre = rows@.take(i + 1);
            assert(pre.drop_last() =~= rows@.take(i as int));
            assert(outs.drop_last() =~= prev_outs);
            assert(pre.last() == rows@[i as int]);
            let prev = in_day(rows@.take(i as int), prev_outs, start_ms);
            assert(in_day(pre, outs, start_ms) == (if rows@[i as int].bucket_ms < start_ms {
                prev
            } else {
                prev.push((candle, sweeps@, cascade))
            }));
            let want = in_day(pre, outs, start_ms);
            assert forall|k: int| 0 <= k < kept@.len() implies (#[trigger] kept@[k]).cascade is None by {
                if k < before_kept.len() {
                    assert(kept@[k] == before_kept[k]);
                }
            }
            assert forall|k: int| 0 <= k < want.len() implies {
                &&& (#[trigger] kept@[k]).candle == want[k].0
                &&& kept@[k].sweeps@ == want[k].1
                &&& kept@[k].cascade == want[k].2
            } by {
                if k < before_kept.len() {
                    assert(kept@[k] == before_kept[k]);
                }
            }
        }
        i = i + 1;
    }
    assert(rows@.take(rows@.len() as int) =~= rows@);
    kept
}

/// The events persisted for one interval.
#[derive(Clone, Debug)]
pub struct IntervalSummary {
    pub interval: String,
    pub sweeps: usize,
    pub cascades: usize,
}

/// How one interval's replay ended.
#[derive(Clone, Debug)]
pub enum IntervalOutcome {
    Done(IntervalSummary),
    Failed { interval: String, error: String },
}

/// The result of a day's backfill for one coin.
#[derive(Clone, Debug)]
pub struct BackfillSummary {
    pub coin: String,
    /// The day that was replayed, as "YYYY-MM-DD".
    pub date: String,
    pub events_detected: usize,
    pub by_interval: Vec<IntervalSummary>,
    pub notes: Vec<String>,
}

pub open spec fn cascade_limitation_note() -> Seq<char> {
    "Cascades require per-trade liquidation counts which are not available in OHLCV snapshots. Only liquidity sweeps are detected during backfill."@
}

/// Events persisted over the completed intervals.
pub open spec fn events_total(outcomes: Seq<IntervalOutcome>) -> int
    decreases outcomes.len(),
{
    if outcomes.len() == 0 {
        0
    } else {
        events_total(outcomes.drop_last()) + match outcomes.last() {
            IntervalOutcome::Done(s) => s.sweeps + s.cascades,
            IntervalOutcome::Failed { .. } => 0int,
        }
    }
}

/// The summaries of the completed intervals, in order.
pub open spec fn completed(outcomes: Seq<IntervalOutcome>) -> Seq<IntervalSummary>
    decreases outcomes.len(),
{
    if outcomes.len() == 0 {
        seq![]
    } else {
        let prev = completed(outcomes.drop_last());
        match outcomes.last() {
            IntervalOutcome::Done(s) => prev.push(s),
            IntervalOutcome::Failed { .. } => prev,
        }
    }
}

/// One note per failed interval, in order.
pub open spec fn failure_notes(outcomes: Seq<IntervalOutcome>) -> Seq<Seq<char>>
    decreases outcomes.len(),
{
    if outcomes.len() == 0 {
        seq![]
    } else {
        let prev = failure_notes(outcomes.drop_last());
        match outcomes.last() {
            IntervalOutcome::Done(_) => prev,
            IntervalOutcome::Failed { interval, error } => prev.push(
                "Interval "@ + interval@ + " failed: "@ + error@,
            ),
        }
    }
}

impl BackfillSummary {
    /// The summary of a day's backfill: the completed intervals, the total
    /// of their events, and the notes, which start with the cascade
    /// limitation and add one line per failed interval.
    pub fn assemble(coin: String, date: String, outcomes: Vec<IntervalOutcome>) -> (s: Self)
        requires
            events_total(outcomes@) <= usize::MAX,
        ensures
            s.coin == coin,
            s.date == date,
            s.events_detected == events_total(outcomes@),
            s.by_interval@ == completed(outcomes@),
            s.notes@.len() == 1 + failure_notes(outcomes@).len(),
            s.notes@[0]@ == cascade_limitation_note(),
            forall|k: int|
                0 <= k < failure_notes(outcomes@).len() ==> (#[trigger] s.notes@[k + 1])@
                    == failure_notes(outcomes@)[k],
    {
        let mut by_interval: Vec<IntervalSummary> = Vec::new();
        let mut notes: Vec<String> = Vec::new();
        notes.push(
            "Cascades require per-trade liquidation counts which are not available in OHLCV snapshots. Only liquidity sweeps are detected during backfill.".to_owned(),
        );
        let mut total: usize = 0;
        let mut i: usize = 0;
        while i < outcomes.len()
            invariant
                0 <= i <= outcomes@.len(),
                events_total(outcomes@) <= usize::MAX,
                total == events_total(outcomes@.take(i as int)),
                by_interval@ == completed(outcomes@.take(i as int)),
                notes@.len() == 1 + failure_notes(outcomes@.take(i as int)).len(),
                notes@[0]@ == cascade_limitation_note(),
                forall|k: int|
                    0 <= k < failure_notes(outcomes@.take(i as int)).len() ==> (#[trigger] notes@[k
                        + 1])@ == failure_notes(outcomes@.take(i as int))[k],
            decreases outcomes@.len() - i,
        {
            let ghost pre = outcomes@.take(i + 1);
            assert(pre.drop_last() =~= outcomes@.take(i as int));
            proof {
                lemma_events_prefix(outcomes@, i + 1);
            }
            let ghost before_notes = notes@;
            match &outcomes[i] {
                IntervalOutcome::Done(s) => {
                    total = total + s.sweeps + s.cascades;
                    by_interval.push(IntervalSummary { interval: s.interval.clone(), sweeps: s.sweeps, cascades: s.cascades });
                },
                IntervalOutcome::Failed { interval, error } => {
                    let note = "Interval ".to_owned().concat(interval.as_str()).concat(" failed: ").concat(
                        error.as_str(),
                    );
                    notes.push(note);
                },
            }
            proof {
                let fnotes = failure_notes(pre);
                assert forall|k: int| 0 <= k < fnotes.len() implies (#[trigger] notes@[k + 1])@
                    == fnotes[k] by {
                    if k + 1 < before_notes.len() {
                        assert(notes@[k + 1] == before_notes[k + 1]);
                    }
                }
            }
            i = i + 1;
        }
        assert(outcomes@.take(outcomes@.len() as int) =~= outcomes@);
        BackfillSummary { coin, date, events_detected: total, by_interval, notes }
    }
}

/// Every prefix of the outcomes has no more events than all of them.
proof fn lemma_events_prefix(outcomes: Seq<IntervalOutcome>, n: int)
    requires
        0 <= n <= outcomes.len(),
    ensures
        events_total(outcomes.take(n)) <= events_total(outcomes),
    decreases outcomes.len(),
{
    if n < outcomes.len() {
        assert(outcomes.drop_last().take(n) =~= outcomes.take(n));
        lemma_events_prefix(outcomes.drop_last(), n);
    } else {
        assert(outcomes.take(n) =~= outcomes);
    }
}

// ─── the requested day ──────────────────────────────────────────────────────

/// The calendar date `NaiveDate::parse_from_str(text, "%Y-%m-%d")` reads,
/// as year, month and day.
pub uninterp spec fn parsed_date(text: Seq<char>) -> Option<(i32, u32, u32)>;

/// Gregorian leap years.
pub open spec fn is_leap_year(y: int) -> bool {
    (y % 4 == 0 && y % 100 != 0) || y % 400 == 0
}

pub open spec fn days_in_month(y: int, m: int) -> int {
    if m == 2 {
        if is_leap_year(y) {
            29
        } else {
            28
        }
    } else if m == 4 || m == 6 || m == 9 || m == 11 {
        30
    } else {
        31
    }
}

/// A date of the proleptic Gregorian calendar within the years `NaiveDate`
/// holds (-262143 to 262142).
pub open spec fn calendar_date(year: i32, month: u32, day: u32) -> bool {
    &&& -262143 <= year <= 262142
    &&& 1 <= month <= 12
    &&& 1 <= day <= days_in_month(year as int, month as int)
}

/// Days from 1970-01-01 to a date of the proleptic Gregorian calendar,
/// counted in 400-year eras of 146097 days from 0000-03-01.
pub open spec fn days_from_civil(y: int, m: int, d: int) -> int {
    let y2 = if m <= 2 { y - 1 } else { y };
    let era = y2 / 400;
    let yoe = y2 - era * 400;
    let mp = if m > 2 { m - 3 } else { m + 9 };
    let doy = (153 * mp + 2) / 5 + d - 1;
    let doe = yoe * 365 + yoe / 4 - yoe / 100 + doy;
    era * 146097 + doe - 719468
}

/// The Unix time in milliseconds of midnight UTC starting a date, when the
/// date exists.
pub open spec fn midnight_utc_ms(year: i32, month: u32, day: u32) -> Option<i64> {
    if calendar_date(year, month, day) {
        Some((days_from_civil(year as int, month as int, day as int) * DAY_MS) as i64)
    } else {
        None
    }
}

/// The decimal digit `n`.
pub open spec fn digit(n: int) -> char {
    (48 + n) as char
}

/// `n` (below 100) as two decimal digits.
pub open spec fn two_digits(n: int) -> Seq<char> {
    seq![digit(n / 10), digit(n % 10)]
}

/// A date of a year from 0 to 9999 as `YYYY-MM-DD`.
pub open spec fn iso_date_text(year: int, month: int, day: int) -> Seq<char> {
    two_digits(year / 100) + two_digits(year % 100) + seq!['-'] + two_digits(month) + seq!['-'] + two_digits(
        day,
    )
}

/// The text `NaiveDate`'s `Display` writes for a date.
pub uninterp spec fn date_text(year: i32, month: u32, day: u32) -> Seq<char>;

/// Reads a date with `NaiveDate::parse_from_str` and the `%Y-%m-%d`
/// format. A date it yields is a calendar date, so its month lies in
/// 1..=12 and its day in 1..=31.
#[verifier::external_body]
fn parse_date(text: &str) -> (r: Option<(i32, u32, u32)>)
    ensures
        r == parsed_date(text@),
        r matches Some(d) ==> 1 <= d.1 <= 12 && 1 <= d.2 <= 31,
{
    match NaiveDate::parse_from_str(text, "%Y-%m-%d") {
        Ok(d) => Some((d.year(), d.month(), d.day())),
        Err(_) => None,
    }
}

/// Midnight UTC of a date with `NaiveDate::from_ymd_opt`, `and_hms_opt`
/// and `and_utc().timestamp_millis()`: a date exists when it is a calendar
/// date of the years `NaiveDate` holds, and its midnight lies a whole
/// number of days (counted in the proleptic Gregorian calendar, without
/// leap seconds) after the epoch.
#[verifier::external_body]
fn day_start(year: i32, month: u32, day: u32) -> (r: Option<i64>)
    ensures
        r == midnight_utc_ms(year, month, day),
{
    match NaiveDate::from_ymd_opt(year, month, day) {
        Some(date) => match date.and_hms_opt(0, 0, 0) {
            Some(dt) => Some(dt.and_utc().timestamp_millis()),
            None => None,
        },
        None => None,
    }
}

/// Writes a date with `NaiveDate`'s `Display`: for a year from 0 to 9999
/// the year in four digits, the month and the day in two, joined by
/// hyphens (other years carry a sign).
#[verifier::external_body]
fn format_date(year: i32, month: u32, day: u32) -> (r: String)
    requires
        midnight_utc_ms(year, month, day) is Some,
    ensures
        r@ == date_text(year, month, day),
        0 <= year <= 9999 ==> r@ == iso_date_text(year as int, month as int, day as int),
{
    match NaiveDate::from_ymd_opt(year, month, day) {
        Some(date) => date.to_string(),
        None => String::new(),
    }
}

/// A request to replay one UTC day for one coin.
#[derive(Clone, Debug)]
pub struct BackfillRequest {
    pub coin: String,
    /// The UTC day, as "YYYY-MM-DD".
    pub date: String,
}

/// The day and coin a request resolves to.
#[derive(Clone, Debug)]
pub struct BackfillDay {
    /// Trimmed and upper-cased.
    pub coin: String,
    /// The day as `NaiveDate` writes it.
    pub date: String,
    /// Midnight UTC starting the day.
    pub start_ms: i64,
    /// Midnight UTC ending the day (exclusive).
    pub end_ms: i64,
}

#[derive(Clone, Copy, Debug, PartialEq, Eq, Structural)]
pub enum BackfillRequestError {
    InvalidDate,
    EmptyCoin,
}

impl BackfillRequestError {
    pub fn message(&self) -> (r: &'static str)
        ensures
            r@ == (match self {
                BackfillRequestError::InvalidDate => "invalid date, expected YYYY-MM-DD"@,
                BackfillRequestError::EmptyCoin => "coin must not be empty"@,
            }),
    {
        match self {
            BackfillRequestError::InvalidDate => "invalid date, expected YYYY-MM-DD",
            BackfillRequestError::EmptyCoin => "coin must not be empty",
        }
    }
}

/// The day a date text names: its start, which must exist and leave room
/// for a whole day in `i64`.
pub open spec fn requested_day(text: Seq<char>) -> Option<(i32, u32, u32, i64)> {
    match parsed_date(text) {
        Some(d) => match midnight_utc_ms(d.0, d.1, d.2) {
            Some(ms) => if ms + DAY_MS <= i64::MAX {
                Some((d.0, d.1, d.2, ms))
            } else {
                None
            },
            None => None,
        },
        None => None,
    }
}

/// Resolves a request: the date first, then the coin, which is trimmed
/// and upper-cased and must not come out empty.
pub fn resolve_request(req: &BackfillRequest) -> (r: Result<BackfillDay, BackfillRequestError>)
    ensures
        match requested_day(req.date@) {
            None => r == Err::<BackfillDay, BackfillRequestError>(BackfillRequestError::InvalidDate),
            Some(d) => {
                let coin = crate::text::uppercase(crate::text::trimmed(req.coin@));
                if coin.len() == 0 {
                    r == Err::<BackfillDay, BackfillRequestError>(BackfillRequestError::EmptyCoin)
                } else {
                    r matches Ok(day) && day.coin@ == coin && day.date@ == date_text(d.0, d.1, d.2)
                        && day.start_ms == d.3 && day.end_ms == d.3 + DAY_MS
                }
            },
        },
{
    let (year, month, day) = match parse_date(req.date.as_str()) {
        Some(d) => d,
        None => {
            return Err(BackfillRequestError::InvalidDate);
        },
    };
    let start_ms = match day_start(year, month, day) {
        Some(ms) => ms,
        None => {
            return Err(BackfillRequestError::InvalidDate);
        },
    };
    if start_ms > i64::MAX - DAY_MS {
        return Err(BackfillRequestError::InvalidDate);
    }
    let trimmed = crate::text::trim(req.coin.as_str());
    let coin = crate::text::to_upper(trimmed.as_str());
    if coin.unicode_len() == 0 {
        return Err(BackfillRequestError::EmptyCoin);
    }
    Ok(BackfillDay { coin, date: format_date(year, month, day), start_ms, end_ms: day_end(start_ms) })
}

} // verus!
