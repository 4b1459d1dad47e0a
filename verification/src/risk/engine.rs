//! The basic risk engine: position and loss limits, a valid stop, and a
//! notional size capped by the limits.

use vstd::prelude::*;
use crate::decimal::{
    Dec, dec_lt, dec_le, dec_sub, dec_mul, dec_div, dec_min, pow10, quotient_of, product_of,
    difference_opt, product_opt, quotient_opt, checked_difference, checked_product, checked_quotient,
    sub_fits, abs, one_units, max_scale, lemma_pow10_values, lemma_pow10_positive, MAX_MANTISSA,
};
use crate::risk::types::{ApprovedSignal, RiskContext, RiskDecision, RiskRejectionReason};
use crate::signals::types::same_signal;
use crate::trading::{EngineError, TradeDirection};

verus! {

/// Something that approves and sizes, or rejects, trade signals.
pub trait RiskEngine {
    /// The contexts the engine can decide on.
    spec fn can_evaluate(&self, ctx: RiskContext) -> bool;

    fn evaluate(&self, ctx: &RiskContext) -> (r: Result<RiskDecision, EngineError>)
        requires
            self.can_evaluate(*ctx),
    ;
}

/// The amounts of a context are valid decimals.
pub open spec fn amounts_ok(ctx: RiskContext) -> bool {
    &&& ctx.limits.max_notional_usd.wf()
    &&& ctx.limits.max_risk_per_trade_usd.wf()
    &&& ctx.limits.max_daily_loss_usd.wf()
    &&& ctx.portfolio.daily_realized_pnl_usd.wf()
    &&& ctx.signal.stop.stop_price.wf()
    &&& ctx.signal.entry.limit_price matches Some(p) ==> p.wf()
    &&& ctx.signal.notional_usd matches Some(n) ==> n.wf()
}

/// The amounts are valid and every `rust_decimal` operation the evaluation
/// reaches is defined (each would panic otherwise): the stop distance once
/// the limits pass and the entry has a price, ten times the risk per trade
/// (computed whether or not the signal carries its own notional) once the
/// stop distance is positive, and the quantity the granted notional buys
/// at a positive entry price.
pub open spec fn context_ok(ctx: RiskContext) -> bool {
    &&& amounts_ok(ctx)
    &&& reaches_stop(ctx) ==> stop_difference(ctx, ctx.signal.entry.limit_price.unwrap()) is Some
    &&& reaches_sizing(ctx) ==> product_opt(ctx.limits.max_risk_per_trade_usd, ten()) is Some
    &&& reaches_sizing(ctx) && ctx.signal.entry.limit_price.unwrap()@ > 0 ==> quotient_opt(
        sized_dec(ctx),
        ctx.signal.entry.limit_price.unwrap(),
    ) is Some
}

/// The position and daily loss limits let the signal through.
pub open spec fn within_limits(ctx: RiskContext) -> bool {
    &&& ctx.portfolio.open_positions < ctx.limits.max_concurrent_positions
    &&& ctx.portfolio.daily_realized_pnl_usd@ > -ctx.limits.max_daily_loss_usd@
}

/// The evaluation gets as far as the stop distance.
pub open spec fn reaches_stop(ctx: RiskContext) -> bool {
    within_limits(ctx) && ctx.signal.entry.limit_price is Some
}

/// The evaluation gets as far as sizing.
pub open spec fn reaches_sizing(ctx: RiskContext) -> bool {
    reaches_stop(ctx) && stop_distance(ctx, ctx.signal.entry.limit_price.unwrap()) > 0
}

/// The stop lies strictly on the losing side of the entry `e`: below it
/// for a long, above it for a short.
pub open spec fn stop_on_losing_side(ctx: RiskContext, e: Dec) -> bool {
    match ctx.signal.side {
        TradeDirection::Long => ctx.signal.stop.stop_price@ < e@,
        TradeDirection::Short => ctx.signal.stop.stop_price@ > e@,
    }
}

/// `d` is a rejection for an invalid stop distance.
pub open spec fn rejects_stop(d: RiskDecision) -> bool {
    d matches RiskDecision::Rejected { reason, .. } && reason == RiskRejectionReason::InvalidStopDistance
}

/// A difference `rust_decimal` computes has the sign of the exact
/// difference: it is exact where it fits, and where it does not the exact
/// difference is far larger than the rounding.
proof fn lemma_difference_sign(a: Dec, b: Dec, d: Dec)
    requires
        sub_fits(a, b) ==> d@ == a@ - b@,
        abs(d@ - (a@ - b@)) <= one_units(),
    ensures
        (d@ > 0) == (a@ > b@),
{
    if !sub_fits(a, b) {
        lemma_pow10_values();
        let p = pow10((28 - max_scale(a, b)) as nat);
        lemma_pow10_positive((28 - max_scale(a, b)) as nat);
        assert(MAX_MANTISSA * p >= MAX_MANTISSA) by (nonlinear_arith)
            requires
                p >= 1,
        ;
    }
}

/// The decimal ten.
pub open spec fn ten() -> Dec {
    Dec { mantissa: 10, scale: 0 }
}

/// How far the stop lies from the entry on the losing side, as
/// `rust_decimal` subtracts, `None` where the subtraction overflows.
pub open spec fn stop_difference(ctx: RiskContext, entry: Dec) -> Option<Dec> {
    match ctx.signal.side {
        TradeDirection::Long => difference_opt(entry, ctx.signal.stop.stop_price),
        TradeDirection::Short => difference_opt(ctx.signal.stop.stop_price, entry),
    }
}

/// The value of the stop distance.
pub open spec fn stop_distance(ctx: RiskContext, entry: Dec) -> int {
    stop_difference(ctx, entry).unwrap()@
}

/// The notional asked for: the signal's own, else ten times the risk per
/// trade.
pub open spec fn asked_dec(ctx: RiskContext) -> Dec {
    match ctx.signal.notional_usd {
        Some(n) => n,
        None => product_of(ctx.limits.max_risk_per_trade_usd, ten()),
    }
}

/// The notional granted: the maximum unless the asked notional is smaller.
pub open spec fn sized_dec(ctx: RiskContext) -> Dec {
    if asked_dec(ctx)@ < ctx.limits.max_notional_usd@ {
        asked_dec(ctx)
    } else {
        ctx.limits.max_notional_usd
    }
}

/// The value of the notional granted.
pub open spec fn sized_notional(ctx: RiskContext) -> int {
    sized_dec(ctx)@
}

/// The reason a signal is rejected, checked in this order, or `None` when
/// it is approved.
pub open spec fn rejection(ctx: RiskContext) -> Option<RiskRejectionReason> {
    if ctx.portfolio.open_positions >= ctx.limits.max_concurrent_positions {
        Some(RiskRejectionReason::PositionLimitReached)
    } else if ctx.portfolio.daily_realized_pnl_usd@ <= -ctx.limits.max_daily_loss_usd@ {
        Some(RiskRejectionReason::DailyLossLimitReached)
    } else if ctx.signal.entry.limit_price is None {
        Some(RiskRejectionReason::MissingEntryPrice)
    } else if stop_distance(ctx, ctx.signal.entry.limit_price.unwrap()) <= 0 {
        Some(RiskRejectionReason::InvalidStopDistance)
    } else if sized_notional(ctx) > ctx.limits.max_notional_usd@ {
        Some(RiskRejectionReason::NotionalLimitExceeded)
    } else {
        None
    }
}

/// The message of each rejection the basic engine makes; it never rejects
/// for slippage.
pub open spec fn rejection_message(reason: RiskRejectionReason) -> Seq<char> {
    match reason {
        RiskRejectionReason::PositionLimitReached => "max concurrent positions reached"@,
        RiskRejectionReason::DailyLossLimitReached => "daily loss limit reached"@,
        RiskRejectionReason::MissingEntryPrice => "entry plan requires an explicit price for sizing"@,
        RiskRejectionReason::InvalidStopDistance => "stop must be beyond entry in the loss direction"@,
        RiskRejectionReason::NotionalLimitExceeded => "signal notional exceeds risk limits"@,
        RiskRejectionReason::SlippageTooHigh => Seq::empty(),
    }
}

/// `d` is the decision for `ctx`: the first rejection with its message, or
/// the approval sized at the granted notional and the quantity that
/// notional buys at the entry price.
pub open spec fn decides(d: RiskDecision, ctx: RiskContext) -> bool {
    match rejection(ctx) {
        Some(reason) => d matches RiskDecision::Rejected { signal, reason: why, message } && same_signal(
            signal,
            ctx.signal,
        ) && why == reason && message@ == rejection_message(reason),
        None => d matches RiskDecision::Approved(a) && {
            let entry = ctx.signal.entry.limit_price.unwrap();
            &&& same_signal(a.signal, ctx.signal)
            &&& a.sized_notional_usd.wf()
            &&& a.sized_notional_usd == sized_dec(ctx)
            &&& a.sized_quantity.wf()
            &&& a.sized_quantity == (if entry@ > 0 {
                quotient_of(sized_dec(ctx), entry)
            } else {
                Dec { mantissa: 0, scale: 0 }
            })
        },
    }
}

/// The negation of a decimal.
fn neg(d: &Dec) -> (r: Dec)
    requires
        d.wf(),
    ensures
        r.wf(),
        r@ == -d@,
{
    proof {
        assert((-d.mantissa) * pow10((28 - d.scale) as nat) == -(d.mantissa * pow10((28 - d.scale) as nat)))
            by (nonlinear_arith);
    }
    Dec { mantissa: -d.mantissa, scale: d.scale }
}

/// The basic engine: rejects when the position limit is reached, when the
/// day's realised loss reached its limit, when the entry has no price, or
/// when the stop is not beyond the entry on the losing side; otherwise
/// sizes the signal at its notional (or ten times the risk per trade),
/// capped at the maximum notional.
#[derive(Debug, Default)]
pub struct BasicRiskEngine;

impl BasicRiskEngine {
    fn reject(ctx: &RiskContext, reason: RiskRejectionReason) -> (d: RiskDecision)
        requires
            reason != RiskRejectionReason::SlippageTooHigh,
        ensures
            d matches RiskDecision::Rejected { signal, reason: why, message } && same_signal(signal, ctx.signal)
                && why == reason && message@ == rejection_message(reason),
    {
        let message = match reason {
            RiskRejectionReason::PositionLimitReached => "max concurrent positions reached".to_owned(),
            RiskRejectionReason::DailyLossLimitReached => "daily loss limit reached".to_owned(),
            RiskRejectionReason::MissingEntryPrice => "entry plan requires an explicit price for sizing".to_owned(),
            RiskRejectionReason::InvalidStopDistance => "stop must be beyond entry in the loss direction".to_owned(),
            RiskRejectionReason::NotionalLimitExceeded => "signal notional exceeds risk limits".to_owned(),
            RiskRejectionReason::SlippageTooHigh => String::new(),
        };
        RiskDecision::Rejected { signal: ctx.signal.duplicate(), reason, message }
    }
}

impl BasicRiskEngine {
    /// Evaluates a context with valid amounts, or returns `None` where the
    /// evaluation would overflow a `rust_decimal` operation.
    pub fn evaluate_checked(&self, ctx: &RiskContext) -> (r: Option<Result<RiskDecision, EngineError>>)
        requires
            amounts_ok(*ctx),
        ensures
            r is Some <==> context_ok(*ctx),
            r matches Some(res) ==> res matches Ok(d) && decides(d, *ctx),
            r matches Some(res) ==> (within_limits(*ctx) && ctx.signal.entry.limit_price is Some ==> (res matches Ok(
                d,
            ) && (rejects_stop(d) <==> !stop_on_losing_side(*ctx, ctx.signal.entry.limit_price.unwrap())))),
    {
        let within = ctx.portfolio.open_positions < ctx.limits.max_concurrent_positions && !dec_le(
            &ctx.portfolio.daily_realized_pnl_usd,
            &neg(&ctx.limits.max_daily_loss_usd),
        );
        if within {
            if let Some(entry) = ctx.signal.entry.limit_price {
                let distance = match ctx.signal.side {
                    TradeDirection::Long => checked_difference(&entry, &ctx.signal.stop.stop_price),
                    TradeDirection::Short => checked_difference(&ctx.signal.stop.stop_price, &entry),
                };
                let distance = match distance {
                    Some(d) => d,
                    None => {
                        return None;
                    },
                };
                if dec_lt(&Dec::zero(), &distance) {
                    let ten_risk = match checked_product(&ctx.limits.max_risk_per_trade_usd, &Dec::new(10, 0)) {
                        Some(p) => p,
                        None => {
                            return None;
                        },
                    };
                    let asked = match ctx.signal.notional_usd {
                        Some(n) => n,
                        None => ten_risk,
                    };
                    let sized = dec_min(ctx.limits.max_notional_usd, asked);
                    if dec_lt(&Dec::zero(), &entry) && checked_quotient(&sized, &entry).is_none() {
                        return None;
                    }
                }
            }
        }
        Some(self.evaluate(ctx))
    }
}

impl RiskEngine for BasicRiskEngine {
    open spec fn can_evaluate(&self, ctx: RiskContext) -> bool {
        context_ok(ctx)
    }

    fn evaluate(&self, ctx: &RiskContext) -> (r: Result<RiskDecision, EngineError>)
        ensures
            r matches Ok(d) && decides(d, *ctx),
            within_limits(*ctx) && ctx.signal.entry.limit_price is Some ==> (r matches Ok(d) && (rejects_stop(d)
                <==> !stop_on_losing_side(*ctx, ctx.signal.entry.limit_price.unwrap()))),
    {
        if ctx.portfolio.open_positions >= ctx.limits.max_concurrent_positions {
            return Ok(BasicRiskEngine::reject(ctx, RiskRejectionReason::PositionLimitReached));
        }
        let floor = neg(&ctx.limits.max_daily_loss_usd);
        if dec_le(&ctx.portfolio.daily_realized_pnl_usd, &floor) {
            return Ok(BasicRiskEngine::reject(ctx, RiskRejectionReason::DailyLossLimitReached));
        }
        let entry_price = match ctx.signal.entry.limit_price {
            Some(p) => p,
            None => {
                return Ok(BasicRiskEngine::reject(ctx, RiskRejectionReason::MissingEntryPrice));
            },
        };
        let stop = ctx.signal.stop.stop_price;
        let stop_distance = match ctx.signal.side {
            TradeDirection::Long => dec_sub(&entry_price, &stop),
            TradeDirection::Short => dec_sub(&stop, &entry_price),
        };
        proof {
            match ctx.signal.side {
                TradeDirection::Long => lemma_difference_sign(entry_price, stop, stop_distance),
                TradeDirection::Short => lemma_difference_sign(stop, entry_price, stop_distance),
            }
        }
        if dec_le(&stop_distance, &Dec::zero()) {
            return Ok(BasicRiskEngine::reject(ctx, RiskRejectionReason::InvalidStopDistance));
        }
        let ten_risk = dec_mul(&ctx.limits.max_risk_per_trade_usd, &Dec::new(10, 0));
        let asked = match ctx.signal.notional_usd {
            Some(n) => n,
            None => ten_risk,
        };
        let sized_notional = dec_min(ctx.limits.max_notional_usd, asked);
        if dec_lt(&ctx.limits.max_notional_usd, &sized_notional) {
            return Ok(BasicRiskEngine::reject(ctx, RiskRejectionReason::NotionalLimitExceeded));
        }
        let sized_quantity = if dec_lt(&Dec::zero(), &entry_price) {
            dec_div(&sized_notional, &entry_price)
        } else {
            Dec::zero()
        };
        Ok(RiskDecision::Approved(ApprovedSignal { signal: ctx.signal.duplicate(), sized_notional_usd: sized_notional, sized_quantity }))
    }
}

/// An approved signal is never sized above the maximum notional, and the
/// notional limit can therefore never be the reason for a rejection.
pub proof fn law_sized_within_limit(ctx: RiskContext)
    ensures
        sized_notional(ctx) <= ctx.limits.max_notional_usd@,
        rejection(ctx) != Some(RiskRejectionReason::NotionalLimitExceeded),
{
}

/// A signal is only approved with a stop strictly on the losing side of a
/// priced entry, and while below the position and daily loss limits.
pub proof fn law_approval_conditions(ctx: RiskContext)
    requires
        rejection(ctx) is None,
    ensures
        ctx.portfolio.open_positions < ctx.limits.max_concurrent_positions,
        ctx.portfolio.daily_realized_pnl_usd@ > -ctx.limits.max_daily_loss_usd@,
        ctx.signal.entry.limit_price is Some,
        stop_distance(ctx, ctx.signal.entry.limit_price.unwrap()) > 0,
{
}
} // verus!
