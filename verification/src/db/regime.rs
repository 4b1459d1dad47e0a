//! Regime changes with hysteresis: a challenger regime must be seen on
//! several consecutive refreshes, and with enough confidence, before it
//! replaces the current one.

use vstd::prelude::*;
use crate::decimal::Dec;
use crate::text::text_eq;

verus! {

/// Consecutive refreshes a challenger needs before it can take over.
pub const MIN_PENDING_COUNT_TO_SWITCH: i32 = 3;

/// The stored regime state of one coin and timeframe.
#[derive(Clone, Debug)]
pub struct RegimeRow {
    pub coin: String,
    pub interval_label: String,
    pub regime: String,
    pub confidence: Dec,
    pub candles_in_regime: i32,
    pub pending_regime: Option<String>,
    pub pending_count: i32,
    pub previous_regime: Option<String>,
}

/// How a new classification changes the stored state.
#[derive(Clone, Copy, Debug, PartialEq, Eq, Structural)]
pub enum RegimeUpdate {
    /// First classification: store it with one candle in the regime.
    Insert,
    /// The current regime holds: count one more candle, clear any
    /// challenger.
    Continue,
    /// The challenger takes over; the current regime becomes the previous.
    Switch,
    /// The challenger was seen again; this many times now.
    Accumulate(i32),
    /// A new challenger, seen once.
    Challenge,
}

/// The change a classification calls for. `confident` says whether its
/// confidence reached the switching threshold.
pub open spec fn regime_update(current: Option<RegimeRow>, new_regime: Seq<char>, confident: bool) -> RegimeUpdate {
    match current {
        None => RegimeUpdate::Insert,
        Some(row) => if new_regime == row.regime@ {
            RegimeUpdate::Continue
        } else if row.pending_regime matches Some(p) && p@ == new_regime {
            if row.pending_count + 1 >= MIN_PENDING_COUNT_TO_SWITCH && confident {
                RegimeUpdate::Switch
            } else {
                RegimeUpdate::Accumulate((row.pending_count + 1) as i32)
            }
        } else {
            RegimeUpdate::Challenge
        },
    }
}

/// The pending count can be raised by one wherever the rule raises it.
pub open spec fn count_fits(current: Option<RegimeRow>, new_regime: Seq<char>) -> bool {
    match current {
        None => true,
        Some(row) => new_regime != row.regime@ && (row.pending_regime matches Some(p) && p@ == new_regime)
            ==> row.pending_count < i32::MAX,
    }
}

pub fn hysteresis_update(current: Option<&RegimeRow>, new_regime: &str, confident: bool) -> (r: RegimeUpdate)
    requires
        count_fits(
            match current {
                Some(row) => Some(*row),
                None => None,
            },
            new_regime@,
        ),
    ensures
        r == regime_update(
            match current {
                Some(row) => Some(*row),
                None => None,
            },
            new_regime@,
            confident,
        ),
{
    match current {
        None => RegimeUpdate::Insert,
        Some(row) => {
            if text_eq(new_regime, row.regime.as_str()) {
                RegimeUpdate::Continue
            } else {
                let is_pending = match &row.pending_regime {
                    Some(p) => text_eq(new_regime, p.as_str()),
                    None => false,
                };
                if is_pending {
                    let new_count = row.pending_count + 1;
                    if new_count >= MIN_PENDING_COUNT_TO_SWITCH && confident {
                        RegimeUpdate::Switch
                    } else {
                        RegimeUpdate::Accumulate(new_count)
                    }
                } else {
                    RegimeUpdate::Challenge
                }
            }
        },
    }
}

/// A challenger only takes over when it was already pending, has now been
/// seen at least the required number of times, and the classification is
/// confident; the current regime seen again always continues.
pub proof fn law_switch_needs_confirmation(current: RegimeRow, new_regime: Seq<char>, confident: bool)
    ensures
        regime_update(Some(current), new_regime, confident) == RegimeUpdate::Switch ==> {
            &&& current.pending_regime matches Some(p) && p@ == new_regime
            &&& current.pending_count + 1 >= MIN_PENDING_COUNT_TO_SWITCH
            &&& confident
            &&& new_regime != current.regime@
        },
        new_regime == current.regime@ ==> regime_update(Some(current), new_regime, confident)
            == RegimeUpdate::Continue,
{
}

/// An optional text by its characters.
pub open spec fn text_of(t: Option<String>) -> Option<Seq<char>> {
    match t {
        Some(s) => Some(s@),
        None => None,
    }
}

/// `r` is the stored row after a classification of `new_regime` with
/// `confidence`, given the row before it (if any): a first classification
/// is stored with one candle in the regime; a continuing regime counts one
/// more candle and clears the challenger; a switch makes the old regime the
/// previous one and starts counting afresh; an accumulating challenger only
/// raises its count; a new challenger replaces the pending one with a count
/// of one.
pub open spec fn stored_after(
    current: Option<RegimeRow>,
    coin: Seq<char>,
    interval: Seq<char>,
    new_regime: Seq<char>,
    confidence: Dec,
    confident: bool,
    r: RegimeRow,
) -> bool {
    match current {
        None => {
            &&& r.coin@ == coin
            &&& r.interval_label@ == interval
            &&& r.regime@ == new_regime
            &&& r.confidence == confidence
            &&& r.candles_in_regime == 1
            &&& r.pending_regime is None
            &&& r.pending_count == 0
            &&& r.previous_regime is None
        },
        Some(row) => {
            &&& r.coin@ == row.coin@
            &&& r.interval_label@ == row.interval_label@
            &&& match regime_update(current, new_regime, confident) {
                RegimeUpdate::Continue => {
                    &&& r.regime@ == row.regime@
                    &&& r.confidence == confidence
                    &&& r.candles_in_regime == row.candles_in_regime + 1
                    &&& r.pending_regime is None
                    &&& r.pending_count == 0
                    &&& text_of(r.previous_regime) == text_of(row.previous_regime)
                },
                RegimeUpdate::Switch => {
                    &&& r.regime@ == new_regime
                    &&& r.confidence == confidence
                    &&& r.candles_in_regime == 1
                    &&& r.pending_regime is None
                    &&& r.pending_count == 0
                    &&& text_of(r.previous_regime) == Some(row.regime@)
                },
                RegimeUpdate::Accumulate(_) => {
                    &&& r.regime@ == row.regime@
                    &&& r.confidence == row.confidence
                    &&& r.candles_in_regime == row.candles_in_regime
                    &&& text_of(r.pending_regime) == text_of(row.pending_regime)
                    &&& r.pending_count == row.pending_count + 1
                    &&& text_of(r.previous_regime) == text_of(row.previous_regime)
                },
                _ => {
                    &&& r.regime@ == row.regime@
                    &&& r.confidence == row.confidence
                    &&& r.candles_in_regime == row.candles_in_regime
                    &&& text_of(r.pending_regime) == Some(new_regime)
                    &&& r.pending_count == 1
                    &&& text_of(r.previous_regime) == text_of(row.previous_regime)
                },
            }
        },
    }
}

fn copy_text(t: &Option<String>) -> (r: Option<String>)
    ensures
        text_of(r) == text_of(*t),
{
    match t {
        Some(s) => Some(s.clone()),
        None => None,
    }
}

/// The stored row after a classification, as the hysteresis rule updates
/// it. `confident` says whether `confidence` reached the switching
/// threshold.
pub fn regime_row_after(
    current: Option<&RegimeRow>,
    coin: &str,
    interval: &str,
    new_regime: &str,
    confidence: Dec,
    confident: bool,
) -> (r: RegimeRow)
    requires
        count_fits(
            match current {
                Some(row) => Some(*row),
                None => None,
            },
            new_regime@,
        ),
        current matches Some(row) ==> row.candles_in_regime < i32::MAX,
    ensures
        stored_after(
            match current {
                Some(row) => Some(*row),
                None => None,
            },
            coin@,
            interval@,
            new_regime@,
            confidence,
            confident,
            r,
        ),
{
    let update = hysteresis_update(current, new_regime, confident);
    match current {
        None => RegimeRow {
            coin: coin.to_string(),
            interval_label: interval.to_string(),
            regime: new_regime.to_string(),
            confidence,
            candles_in_regime: 1,
            pending_regime: None,
            pending_count: 0,
            previous_regime: None,
        },
        Some(row) => {
            let coin = row.coin.clone();
            let interval_label = row.interval_label.clone();
            match update {
                RegimeUpdate::Continue => RegimeRow {
                    coin,
                    interval_label,
                    regime: row.regime.clone(),
                    confidence,
                    candles_in_regime: row.candles_in_regime + 1,
                    pending_regime: None,
                    pending_count: 0,
                    previous_regime: copy_text(&row.previous_regime),
                },
                RegimeUpdate::Switch => RegimeRow {
                    coin,
                    interval_label,
                    regime: new_regime.to_string(),
                    confidence,
                    candles_in_regime: 1,
                    pending_regime: None,
                    pending_count: 0,
                    previous_regime: Some(row.regime.clone()),
                },
                RegimeUpdate::Accumulate(n) => RegimeRow {
                    coin,
                    interval_label,
                    regime: row.regime.clone(),
                    confidence: row.confidence,
                    candles_in_regime: row.candles_in_regime,
                    pending_regime: copy_text(&row.pending_regime),
                    pending_count: n,
                    previous_regime: copy_text(&row.previous_regime),
                },
                _ => RegimeRow {
                    coin,
                    interval_label,
                    regime: row.regime.clone(),
                    confidence: row.confidence,
                    candles_in_regime: row.candles_in_regime,
                    pending_regime: Some(new_regime.to_string()),
                    pending_count: 1,
                    previous_regime: copy_text(&row.previous_regime),
                },
            }
        },
    }
}

/// Over any run of classifications of one coin and timeframe, the stored
/// regime only changes at a reading confirmed by the two before it: when
/// the regime after reading `k` differs from the one before, readings
/// `k - 2`, `k - 1` and `k` all named the new regime, reading `k` was
/// confident, at least three readings followed the first, and the old
/// regime is remembered as the previous one.
pub proof fn law_regime_changes_confirmed(
    rows: Seq<RegimeRow>,
    readings: Seq<Seq<char>>,
    confidences: Seq<Dec>,
    confident: Seq<bool>,
    coin: Seq<char>,
    interval: Seq<char>,
    k: int,
)
    requires
        rows.len() == readings.len(),
        confidences.len() == readings.len(),
        confident.len() == readings.len(),
        readings.len() >= 1,
        stored_after(None, coin, interval, readings[0], confidences[0], confident[0], rows[0]),
        forall|m: int| #![trigger readings[m]] 1 <= m < rows.len() ==> stored_after(
            Some(rows[m - 1]),
            coin,
            interval,
            readings[m],
            confidences[m],
            confident[m],
            rows[m],
        ),
        1 <= k < rows.len(),
        rows[k].regime@ != rows[k - 1].regime@,
    ensures
        k >= 3,
        readings[k - 2] == rows[k].regime@,
        readings[k - 1] == rows[k].regime@,
        readings[k] == rows[k].regime@,
        confident[k],
        text_of(rows[k].previous_regime) == Some(rows[k - 1].regime@),
{
    assert(rows[k] == rows[k]);
    lemma_pending_run(rows, readings, confidences, confident, coin, interval, k - 1);
    let row = rows[k - 1];
    let u = regime_update(Some(row), readings[k], confident[k]);
    assert(u == RegimeUpdate::Switch);
}

/// The pending challenger was named by exactly the trailing readings that
/// its count says.
proof fn lemma_pending_run(
    rows: Seq<RegimeRow>,
    readings: Seq<Seq<char>>,
    confidences: Seq<Dec>,
    confident: Seq<bool>,
    coin: Seq<char>,
    interval: Seq<char>,
    k: int,
)
    requires
        rows.len() == readings.len(),
        confidences.len() == readings.len(),
        confident.len() == readings.len(),
        stored_after(None, coin, interval, readings[0], confidences[0], confident[0], rows[0]),
        forall|m: int| #![trigger readings[m]] 1 <= m < rows.len() ==> stored_after(
            Some(rows[m - 1]),
            coin,
            interval,
            readings[m],
            confidences[m],
            confident[m],
            rows[m],
        ),
        0 <= k < rows.len(),
    ensures
        rows[k].pending_regime is None ==> rows[k].pending_count == 0,
        rows[k].pending_regime matches Some(p) ==> {
            &&& 1 <= rows[k].pending_count <= k
            &&& forall|m: int| k - rows[k].pending_count < m <= k ==> readings[m] == p@
        },
    decreases k,
{
    if k > 0 {
        lemma_pending_run(rows, readings, confidences, confident, coin, interval, k - 1);
        let prev = rows[k - 1];
        let r = rows[k];
        assert(stored_after(Some(prev), coin, interval, readings[k], confidences[k], confident[k], r));
        match regime_update(Some(prev), readings[k], confident[k]) {
            RegimeUpdate::Accumulate(_) => {
                let p = prev.pending_regime.unwrap();
                assert(p@ == readings[k]);
                assert(r.pending_regime matches Some(q) && q@ == p@);
                assert forall|m: int| k - r.pending_count < m <= k implies readings[m] == p@ by {
                    if m < k {
                        assert(k - 1 - prev.pending_count < m <= k - 1);
                    }
                }
            },
            RegimeUpdate::Insert => {},
            RegimeUpdate::Continue => {},
            RegimeUpdate::Switch => {},
            RegimeUpdate::Challenge => {
                assert(r.pending_regime matches Some(q) && q@ == readings[k]);
            },
        }
    }
}
} // verus!
