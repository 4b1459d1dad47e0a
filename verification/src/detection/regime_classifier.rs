//! The market regimes a coin's timeframe can be in. Scoring candles into a
//! regime is done in floating point by the service around this library.

use vstd::prelude::*;

verus! {

/// TREND_UP and TREND_DOWN are directional; RANGE is mean-reverting and
/// bounded; HIGH_VOL_CHOP is volatile without direction; and
/// LOW_VOL_COMPRESSION is coiling before a breakout.
#[derive(Clone, Copy, Debug, PartialEq, Eq, Structural, Hash)]
pub enum RegimeKind {
    TrendUp,
    TrendDown,
    Range,
    HighVolChop,
    LowVolCompression,
}

/// The stored name of a regime.
pub open spec fn regime_name(k: RegimeKind) -> Seq<char> {
    match k {
        RegimeKind::TrendUp => "TREND_UP"@,
        RegimeKind::TrendDown => "TREND_DOWN"@,
        RegimeKind::Range => "RANGE"@,
        RegimeKind::HighVolChop => "HIGH_VOL_CHOP"@,
        RegimeKind::LowVolCompression => "LOW_VOL_COMPRESSION"@,
    }
}

impl RegimeKind {
    pub fn as_str(&self) -> (r: &'static str)
        ensures
            r@ == regime_name(*self),
    {
        match self {
            RegimeKind::TrendUp => "TREND_UP",
            RegimeKind::TrendDown => "TREND_DOWN",
            RegimeKind::Range => "RANGE",
            RegimeKind::HighVolChop => "HIGH_VOL_CHOP",
            RegimeKind::LowVolCompression => "LOW_VOL_COMPRESSION",
        }
    }
}

} // verus!
