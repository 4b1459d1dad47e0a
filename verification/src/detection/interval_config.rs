//! Per-interval detection parameters.

use vstd::prelude::*;
use crate::decimal::{Dec, moderate_limit};
use crate::text::text_eq;

verus! {

/// Detection parameters of one candle interval. Thresholds are
/// interval-aware: a meaningful wick on 1m is noise on 4h. The outcome
/// window is a duration so that outcomes compare across intervals.
#[derive(Clone, Copy, Debug)]
pub struct IntervalConfig {
    /// Label used in queries and stored rows.
    pub label: &'static str,
    pub interval_ms: i64,
    /// Candles that must be strictly lower (higher) on both sides of a pivot
    /// for it to be a swing high (low).
    pub swing_lookback: usize,
    /// Minimum fractional wick extension past a swing level for a sweep.
    pub wick_min_frac: Dec,
    /// Candles in the rolling volume baseline.
    pub volume_baseline_candles: usize,
    /// Volume must be at least baseline times this to count as a spike.
    pub volume_spike_multiplier: Dec,
    /// How long the outcome tracker observes after an event.
    pub outcome_window_ms: i64,
    /// Candles after a sweep checked for reclassification as a cascade.
    pub cascade_guard_candles: usize,
    /// Consecutive same-direction candles that confirm a cascade.
    pub cascade_sustain_candles: usize,
    /// Minimum fractional move counted as reversal or continuation.
    pub reversal_threshold_frac: Dec,
    /// A swing level expires after this many candles.
    pub level_expiry_candles: usize,
}

impl IntervalConfig {
    /// Parameters within the ranges the detectors are built for.
    pub open spec fn wf(&self) -> bool {
        &&& self.interval_ms > 0
        &&& 1 <= self.swing_lookback <= 1000
        &&& self.wick_min_frac.moderate()
        &&& 1 <= self.volume_baseline_candles <= 1000
        &&& self.volume_spike_multiplier.moderate()
        &&& 0 <= self.volume_spike_multiplier@
        &&& self.volume_spike_multiplier@ <= 1000 * crate::decimal::one_units()
        &&& self.outcome_window_ms >= 0
        &&& self.cascade_guard_candles <= 1000
        &&& 1 <= self.cascade_sustain_candles <= 1000
        &&& self.reversal_threshold_frac.moderate()
        &&& self.level_expiry_candles <= 1000000
    }

    /// The interval length for a label, if the label is supported.
    pub fn interval_label_to_ms(label: &str) -> (r: Option<i64>)
        ensures
            r == (match config_index(label@) {
                Some(i) => Some(config_table()[i].interval_ms),
                None => None,
            }),
    {
        match config_for(label) {
            Some(c) => Some(c.interval_ms),
            None => None,
        }
    }
}

pub open spec fn row(
    label: &'static str,
    interval_ms: i64,
    swing_lookback: usize,
    wick: (i128, u32),
    volume_baseline_candles: usize,
    mult: (i128, u32),
    outcome_window_ms: i64,
    cascade_guard_candles: usize,
    cascade_sustain_candles: usize,
    reversal: (i128, u32),
    level_expiry_candles: usize,
) -> IntervalConfig {
    IntervalConfig {
        label,
        interval_ms,
        swing_lookback,
        wick_min_frac: Dec { mantissa: wick.0, scale: wick.1 },
        volume_baseline_candles,
        volume_spike_multiplier: Dec { mantissa: mult.0, scale: mult.1 },
        outcome_window_ms,
        cascade_guard_candles,
        cascade_sustain_candles,
        reversal_threshold_frac: Dec { mantissa: reversal.0, scale: reversal.1 },
        level_expiry_candles,
    }
}

/// The parameter table of all supported intervals.
pub open spec fn config_table() -> Seq<IntervalConfig> {
    seq![
        row("1m", 60_000, 10, (3, 4), 20, (15, 1), 900_000, 3, 3, (1, 3), 200),
        row("5m", 300_000, 10, (5, 4), 20, (15, 1), 3_600_000, 3, 3, (2, 3), 100),
        row("15m", 900_000, 8, (8, 4), 20, (14, 1), 14_400_000, 3, 2, (3, 3), 100),
        row("1h", 3_600_000, 6, (12, 4), 14, (14, 1), 86_400_000, 2, 2, (5, 3), 50),
        row("4h", 14_400_000, 5, (2, 3), 14, (13, 1), 259_200_000, 2, 2, (8, 3), 50),
        row("1d", 86_400_000, 5, (3, 3), 14, (13, 1), 604_800_000, 2, 2, (10, 3), 30),
    ]
}

/// Index of the first table row whose label is `label`.
pub open spec fn config_index(label: Seq<char>) -> Option<int> {
    if exists|i: int| 0 <= i < config_table().len() && config_table()[i].label@ == label {
        Some(choose|i: int| 0 <= i < config_table().len() && config_table()[i].label@ == label
            && forall|j: int| 0 <= j < i ==> config_table()[j].label@ != label)
    } else {
        None
    }
}

/// The full parameter table for all supported intervals.
pub fn all_configs() -> (r: Vec<IntervalConfig>)
    ensures
        r@ == config_table(),
        forall|i: int| 0 <= i < r@.len() ==> #[trigger] r@[i].wf(),
{
    let v = vec![
        IntervalConfig {
            label: "1m",
            interval_ms: 60_000,
            swing_lookback: 10,
            wick_min_frac: Dec { mantissa: 3, scale: 4 },
            volume_baseline_candles: 20,
            volume_spike_multiplier: Dec { mantissa: 15, scale: 1 },
            outcome_window_ms: 15 * 60_000,
            cascade_guard_candles: 3,
            cascade_sustain_candles: 3,
            reversal_threshold_frac: Dec { mantissa: 1, scale: 3 },
            level_expiry_candles: 200,
        },
        IntervalConfig {
            label: "5m",
            interval_ms: 300_000,
            swing_lookback: 10,
            wick_min_frac: Dec { mantissa: 5, scale: 4 },
            volume_baseline_candles: 20,
            volume_spike_multiplier: Dec { mantissa: 15, scale: 1 },
            outcome_window_ms: 60 * 60_000,
            cascade_guard_candles: 3,
            cascade_sustain_candles: 3,
            reversal_threshold_frac: Dec { mantissa: 2, scale: 3 },
            level_expiry_candles: 100,
        },
        IntervalConfig {
            label: "15m",
            interval_ms: 900_000,
            swing_lookback: 8,
            wick_min_frac: Dec { mantissa: 8, scale: 4 },
            volume_baseline_candles: 20,
            volume_spike_multiplier: Dec { mantissa: 14, scale: 1 },
            outcome_window_ms: 4 * 3_600_000,
            cascade_guard_candles: 3,
            cascade_sustain_candles: 2,
            reversal_threshold_frac: Dec { mantissa: 3, scale: 3 },
            level_expiry_candles: 100,
        },
        IntervalConfig {
            label: "1h",
            interval_ms: 3_600_000,
            swing_lookback: 6,
            wick_min_frac: Dec { mantissa: 12, scale: 4 },
            volume_baseline_candles: 14,
            volume_spike_multiplier: Dec { mantissa: 14, scale: 1 },
            outcome_window_ms: 24 * 3_600_000,
            cascade_guard_candles: 2,
            cascade_sustain_candles: 2,
            reversal_threshold_frac: Dec { mantissa: 5, scale: 3 },
            level_expiry_candles: 50,
        },
        IntervalConfig {
            label: "4h",
            interval_ms: 14_400_000,
            swing_lookback: 5,
            wick_min_frac: Dec { mantissa: 2, scale: 3 },
            volume_baseline_candles: 14,
            volume_spike_multiplier: Dec { mantissa: 13, scale: 1 },
            outcome_window_ms: 72 * 3_600_000,
            cascade_guard_candles: 2,
            cascade_sustain_candles: 2,
            reversal_threshold_frac: Dec { mantissa: 8, scale: 3 },
            level_expiry_candles: 50,
        },
        IntervalConfig {
            label: "1d",
            interval_ms: 86_400_000,
            swing_lookback: 5,
            wick_min_frac: Dec { mantissa: 3, scale: 3 },
            volume_baseline_candles: 14,
            volume_spike_multiplier: Dec { mantissa: 13, scale: 1 },
            outcome_window_ms: 7 * 86_400_000,
            cascade_guard_candles: 2,
            cascade_sustain_candles: 2,
            reversal_threshold_frac: Dec { mantissa: 10, scale: 3 },
            level_expiry_candles: 30,
        },
    ];
    proof {
        crate::decimal::lemma_pow10_values();
        reveal_with_fuel(crate::decimal::pow10, 29);
        assert(v@ =~= config_table());
    }
    v
}

/// The parameters of the interval with this label, if it is supported.
pub fn config_for(label: &str) -> (r: Option<IntervalConfig>)
    ensures
        r == (match config_index(label@) {
            Some(i) => Some(config_table()[i]),
            None => None,
        }),
        r matches Some(c) ==> c.wf(),
{
    let configs = all_configs();
    let mut i: usize = 0;
    while i < configs.len()
        invariant
            configs@ == config_table(),
            0 <= i <= configs@.len(),
            forall|j: int| 0 <= j < i ==> config_table()[j].label@ != label@,
            forall|k: int| 0 <= k < configs@.len() ==> #[trigger] configs@[k].wf(),
        decreases configs@.len() - i,
    {
        if text_eq(configs[i].label, label) {
            proof {
                let k = i as int;
                assert(config_table()[k].label@ == label@);
                let c = choose|c: int| 0 <= c < config_table().len() && config_table()[c].label@
                    == label@ && forall|j: int| 0 <= j < c ==> config_table()[j].label@ != label@;
                assert(c == k) by {
                    if c < k {
                    } else if c > k {
                        assert(config_table()[k].label@ != label@);
                    }
                }
            }
            return Some(configs[i]);
        }
        i = i + 1;
    }
    None
}

} // verus!
