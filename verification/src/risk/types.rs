//! What risk decisions are made from and what they say.

use vstd::prelude::*;
use crate::decimal::Dec;
use crate::signals::types::TradeSignal;
use crate::trading::{MarketSnapshot, PositionSide};

verus! {

/// The limits a signal is held to.
#[derive(Clone, Copy, Debug)]
pub struct RiskLimits {
    pub max_notional_usd: Dec,
    pub max_risk_per_trade_usd: Dec,
    pub max_concurrent_positions: usize,
    pub max_daily_loss_usd: Dec,
    pub max_slippage_bps: Dec,
}

impl Default for RiskLimits {
    /// 10,000 USD notional, 100 USD risk per trade, three positions, a
    /// 300 USD daily loss and 25 basis points of slippage.
    fn default() -> (r: Self)
        ensures
            r.max_notional_usd == (Dec { mantissa: 10_000, scale: 0 }),
            r.max_risk_per_trade_usd == (Dec { mantissa: 100, scale: 0 }),
            r.max_concurrent_positions == 3,
            r.max_daily_loss_usd == (Dec { mantissa: 300, scale: 0 }),
            r.max_slippage_bps == (Dec { mantissa: 25, scale: 0 }),
    {
        RiskLimits {
            max_notional_usd: Dec::new(10_000, 0),
            max_risk_per_trade_usd: Dec::new(100, 0),
            max_concurrent_positions: 3,
            max_daily_loss_usd: Dec::new(300, 0),
            max_slippage_bps: Dec::new(25, 0),
        }
    }
}

#[derive(Clone, Copy, Debug)]
pub struct PortfolioState {
    pub open_positions: usize,
    pub daily_realized_pnl_usd: Dec,
    pub coin_position_side: PositionSide,
}

#[derive(Clone, Debug)]
pub struct RiskContext {
    pub signal: TradeSignal,
    pub market: MarketSnapshot,
    pub portfolio: PortfolioState,
    pub limits: RiskLimits,
}

#[derive(Clone, Copy, Debug, PartialEq, Eq, Structural)]
pub enum RiskRejectionReason {
    MissingEntryPrice,
    InvalidStopDistance,
    PositionLimitReached,
    DailyLossLimitReached,
    NotionalLimitExceeded,
    SlippageTooHigh,
}

/// A signal with its size.
#[derive(Clone, Debug)]
pub struct ApprovedSignal {
    pub signal: TradeSignal,
    pub sized_notional_usd: Dec,
    pub sized_quantity: Dec,
}

#[derive(Clone, Debug)]
pub enum RiskDecision {
    Approved(ApprovedSignal),
    Rejected { signal: TradeSignal, reason: RiskRejectionReason, message: String },
}

} // verus!
