//! A trade signal and how it is drawn from a setup.

use vstd::prelude::*;
use crate::decimal::{
    Dec, dec_add, dec_sub, dec_mul, dec_lt, one_units, pow10, add_fits, sub_fits, sum_of, difference_of,
    sum_opt, difference_opt, product_opt, product_of, lemma_pow10_values, mul_exact, fits_at, max_scale,
    lemma_pow10_monotone, MAX_MANTISSA, checked_sum, checked_difference, checked_product,
};
use crate::setups::types::{SetupEvent, SetupType, copy_setup_type};
use crate::trading::{OrderType, SignalStatus, TimeInForce, TradeDirection, new_id, is_random_uuid};

verus! {

#[derive(Clone, Copy, Debug)]
pub struct EntryPlan {
    pub order_type: OrderType,
    pub limit_price: Option<Dec>,
    pub time_in_force: TimeInForce,
}

#[derive(Clone, Copy, Debug)]
pub struct StopPlan {
    pub stop_price: Dec,
    pub invalidates_setup: bool,
}

#[derive(Clone, Debug)]
pub struct TargetPlan {
    pub price: Dec,
    pub size_fraction: Dec,
    pub label: String,
}

#[derive(Clone, Debug)]
pub struct TradeSignal {
    /// A random UUID, as its 128-bit value.
    pub id: u128,
    pub setup_id: u128,
    pub source_setup_type: SetupType,
    pub coin: String,
    pub interval: String,
    pub side: TradeDirection,
    pub status: SignalStatus,
    pub confidence: Dec,
    pub notional_usd: Option<Dec>,
    pub expires_at_ms: i64,
    pub entry: EntryPlan,
    pub stop: StopPlan,
    pub targets: Vec<TargetPlan>,
    pub rationale: Vec<String>,
}

/// The setup's prices are valid decimals.
pub open spec fn setup_prices_ok(s: SetupEvent) -> bool {
    &&& s.context.reference_price matches Some(p) ==> p.wf()
    &&& s.context.trigger_price matches Some(p) ==> p.wf()
    &&& s.context.invalidation_price matches Some(p) ==> p.wf()
}

/// Every `rust_decimal` operation that drawing a signal from the setup
/// reaches is defined (each would panic otherwise): the risk, once the
/// setup has a direction, an entry and a stop; the first target, the
/// double of the risk and the second target once the risk is positive.
pub open spec fn signal_computable(s: SetupEvent) -> bool {
    s.direction_bias is Some && entry_of(s) is Some && stop_of(s) is Some ==> {
        let side = s.direction_bias.unwrap();
        let long = side == TradeDirection::Long;
        let entry = entry_of(s).unwrap();
        let risk = risk_opt(side, entry, stop_of(s).unwrap());
        &&& risk is Some
        &&& risk.unwrap()@ > 0 ==> {
            &&& target_opt(long, entry, risk.unwrap()) is Some
            &&& product_opt(risk.unwrap(), two()) is Some
            &&& target_opt(long, entry, product_of(risk.unwrap(), two())) is Some
        }
    }
}

/// The decimal two.
pub open spec fn two() -> Dec {
    Dec { mantissa: 2, scale: 0 }
}

/// `entry` moved by `step` toward the target side, as `rust_decimal` adds
/// or subtracts; `None` where that overflows.
pub open spec fn target_opt(long: bool, entry: Dec, step: Dec) -> Option<Dec> {
    if long {
        sum_opt(entry, step)
    } else {
        difference_opt(entry, step)
    }
}

pub open spec fn or_else(a: Option<Dec>, b: Option<Dec>) -> Option<Dec> {
    match a {
        Some(x) => Some(x),
        None => b,
    }
}

/// The entry: the invalidation price, else the reference price.
pub open spec fn entry_of(s: SetupEvent) -> Option<Dec> {
    or_else(s.context.invalidation_price, s.context.reference_price)
}

/// The stop: the trigger price, else the reference price.
pub open spec fn stop_of(s: SetupEvent) -> Option<Dec> {
    or_else(s.context.trigger_price, s.context.reference_price)
}

/// Risk per unit: how far the stop lies from the entry on the losing side,
/// as `rust_decimal` subtracts, `None` where that overflows.
pub open spec fn risk_opt(side: TradeDirection, entry: Dec, stop: Dec) -> Option<Dec> {
    match side {
        TradeDirection::Long => difference_opt(entry, stop),
        TradeDirection::Short => difference_opt(stop, entry),
    }
}

/// Risk per unit, where it is defined.
pub open spec fn risk_of(side: TradeDirection, entry: Dec, stop: Dec) -> Dec {
    risk_opt(side, entry, stop).unwrap()
}

/// `t` is `entry` moved by `step` toward the target side: up for a long,
/// down for a short, as `rust_decimal` adds or subtracts.
pub open spec fn moved(long: bool, entry: Dec, step: Dec, t: Dec) -> bool {
    &&& t == (if long {
        sum_of(entry, step)
    } else {
        difference_of(entry, step)
    })
    &&& long && add_fits(entry, step) ==> t@ == entry@ + step@
    &&& !long && sub_fits(entry, step) ==> t@ == entry@ - step@
}

/// `d` is `rust_decimal`'s product of the risk and two.
pub open spec fn doubled(risk: Dec, d: Dec) -> bool {
    &&& d.wf()
    &&& d == product_of(risk, two())
    &&& mul_exact(risk, two()) ==> d@ == 2 * risk@ && d.scale <= risk.scale
}

/// Each step of drawing the signal from `s` is exact in `rust_decimal`:
/// the risk, both targets and the double of the risk fit without rounding.
pub open spec fn computed_exactly(s: SetupEvent) -> bool {
    let long = s.direction_bias.unwrap() == TradeDirection::Long;
    let entry = entry_of(s).unwrap();
    let stop = stop_of(s).unwrap();
    let risk = risk_of(s.direction_bias.unwrap(), entry, stop);
    &&& if long { sub_fits(entry, stop) } else { sub_fits(stop, entry) }
    &&& if long { add_fits(entry, risk) } else { sub_fits(entry, risk) }
    &&& mul_exact(risk, Dec { mantissa: 2, scale: 0 })
    &&& fits_at(if long { entry@ + 2 * risk@ } else { entry@ - 2 * risk@ }, max_scale(entry, risk))
}

/// A setup yields a signal when it has a direction, an entry and a stop,
/// and the stop lies strictly on the losing side of the entry.
pub open spec fn signals(s: SetupEvent) -> bool {
    &&& s.direction_bias is Some
    &&& entry_of(s) is Some
    &&& stop_of(s) is Some
    &&& risk_of(s.direction_bias.unwrap(), entry_of(s).unwrap(), stop_of(s).unwrap())@ > 0
}

/// `t` is the signal drawn from setup `s`: a limit entry good till
/// cancelled at the entry price, the stop, and two half-size targets at
/// one and two times the risk beyond the entry.
pub open spec fn signal_of(t: TradeSignal, s: SetupEvent, expires_at_ms: i64, id: u128) -> bool {
    let side = s.direction_bias.unwrap();
    let entry = entry_of(s).unwrap();
    let stop = stop_of(s).unwrap();
    let risk = risk_of(side, entry, stop);
    let long = side == TradeDirection::Long;
    &&& long && sub_fits(entry, stop) ==> risk@ == entry@ - stop@
    &&& !long && sub_fits(stop, entry) ==> risk@ == stop@ - entry@
    &&& t.id == id
    &&& t.setup_id == s.id
    &&& t.source_setup_type == s.setup_type
    &&& t.coin == s.coin
    &&& t.interval == s.interval
    &&& t.side == side
    &&& t.status == SignalStatus::Candidate
    &&& t.confidence == s.strength
    &&& t.notional_usd is None
    &&& t.expires_at_ms == expires_at_ms
    &&& t.entry.order_type == OrderType::Limit
    &&& t.entry.limit_price == Some(entry)
    &&& t.entry.time_in_force == TimeInForce::Gtc
    &&& t.stop.stop_price == stop
    &&& t.stop.invalidates_setup
    &&& t.targets@.len() == 2
    &&& t.targets@[0].price.wf()
    &&& moved(long, entry, risk, t.targets@[0].price)
    &&& t.targets@[1].price.wf()
    &&& doubled(risk, product_of(risk, two()))
    &&& moved(long, entry, product_of(risk, two()), t.targets@[1].price)
    &&& t.targets@[0].size_fraction == (Dec { mantissa: 5, scale: 1 })
    &&& t.targets@[1].size_fraction == (Dec { mantissa: 5, scale: 1 })
    &&& t.targets@[0].label@ == "t1"@
    &&& t.targets@[1].label@ == "t2"@
    &&& t.rationale@.len() == 0
}

fn first_of(a: Option<Dec>, b: Option<Dec>) -> (r: Option<Dec>)
    ensures
        r == or_else(a, b),
{
    match a {
        Some(x) => Some(x),
        None => b,
    }
}

/// The risk times two, with `rust_decimal`'s `*`.
fn twice(d: &Dec) -> (r: Dec)
    requires
        d.wf(),
        product_opt(*d, two()) is Some,
    ensures
        doubled(*d, r),
{
    let two = Dec::new(2, 0);
    let r = dec_mul(d, &two);
    proof {
        lemma_pow10_values();
        assert(two@ == 2 * one_units()) by {
            reveal_with_fuel(pow10, 29);
        }
        if mul_exact(*d, two) {
            assert(r@ == 2 * d@) by (nonlinear_arith)
                requires
                    r@ * one_units() == d@ * two@,
                    two@ == 2 * one_units(),
                    one_units() > 0,
            ;
        }
    }
    r
}

impl TradeSignal {
    /// The signal a setup yields, under a fresh random id, expiring at
    /// `expires_at_ms`; `None` when the setup does not yield one.
    pub fn from_setup(setup: &SetupEvent, expires_at_ms: i64) -> (r: Option<Self>)
        requires
            setup_prices_ok(*setup),
            signal_computable(*setup),
        ensures
            r is Some <==> signals(*setup),
            r matches Some(t) ==> signal_of(t, *setup, expires_at_ms, t.id) && is_random_uuid(t.id),
    {
        if !TradeSignal::yields(setup) {
            return None;
        }
        TradeSignal::from_setup_with_id(setup, expires_at_ms, new_id())
    }

    /// Whether the setup yields a signal.
    pub fn yields(setup: &SetupEvent) -> (r: bool)
        requires
            setup_prices_ok(*setup),
            signal_computable(*setup),
        ensures
            r == signals(*setup),
    {
        let side = match setup.direction_bias {
            Some(s) => s,
            None => {
                return false;
            },
        };
        let entry = match first_of(setup.context.invalidation_price, setup.context.reference_price) {
            Some(p) => p,
            None => {
                return false;
            },
        };
        let stop = match first_of(setup.context.trigger_price, setup.context.reference_price) {
            Some(p) => p,
            None => {
                return false;
            },
        };
        let risk = match side {
            TradeDirection::Long => dec_sub(&entry, &stop),
            TradeDirection::Short => dec_sub(&stop, &entry),
        };
        dec_lt(&Dec::zero(), &risk)
    }

    /// The signal a setup yields, under the given id.
    pub fn from_setup_with_id(setup: &SetupEvent, expires_at_ms: i64, id: u128) -> (r: Option<Self>)
        requires
            setup_prices_ok(*setup),
            signal_computable(*setup),
        ensures
            r is Some <==> signals(*setup),
            r matches Some(t) ==> signal_of(t, *setup, expires_at_ms, id),
    {
        let side = match setup.direction_bias {
            Some(s) => s,
            None => {
                return None;
            },
        };
        let entry_price = match first_of(setup.context.invalidation_price, setup.context.reference_price) {
            Some(p) => p,
            None => {
                return None;
            },
        };
        let stop_price = match first_of(setup.context.trigger_price, setup.context.reference_price) {
            Some(p) => p,
            None => {
                return None;
            },
        };
        proof {
            lemma_pow10_values();
        }
        let risk_per_unit = match side {
            TradeDirection::Long => dec_sub(&entry_price, &stop_price),
            TradeDirection::Short => dec_sub(&stop_price, &entry_price),
        };
        if !dec_lt(&Dec::zero(), &risk_per_unit) {
            return None;
        }
        let double_risk = twice(&risk_per_unit);

        let (target_one, target_two) = match side {
            TradeDirection::Long => (dec_add(&entry_price, &risk_per_unit), dec_add(&entry_price, &double_risk)),
            TradeDirection::Short => (dec_sub(&entry_price, &risk_per_unit), dec_sub(&entry_price, &double_risk)),
        };
        let mut targets: Vec<TargetPlan> = Vec::new();
        targets.push(TargetPlan { price: target_one, size_fraction: Dec::new(5, 1), label: "t1".to_owned() });
        targets.push(TargetPlan { price: target_two, size_fraction: Dec::new(5, 1), label: "t2".to_owned() });
        Some(TradeSignal {
            id,
            setup_id: setup.id,
            source_setup_type: copy_setup_type(&setup.setup_type),
            coin: setup.coin.clone(),
            interval: setup.interval.clone(),
            side,
            status: SignalStatus::Candidate,
            confidence: setup.strength,
            notional_usd: None,
            expires_at_ms,
            entry: EntryPlan {
                order_type: OrderType::Limit,
                limit_price: Some(entry_price),
                time_in_force: TimeInForce::Gtc,
            },
            stop: StopPlan { stop_price, invalidates_setup: true },
            targets,
            rationale: Vec::new(),
        })
    }
}

impl TradeSignal {
    /// The signal a setup with valid prices yields, as `from_setup` draws
    /// it, or `None` where drawing it would overflow a `rust_decimal`
    /// operation.
    pub fn from_setup_checked(setup: &SetupEvent, expires_at_ms: i64) -> (r: Option<Option<Self>>)
        requires
            setup_prices_ok(*setup),
        ensures
            r is Some <==> signal_computable(*setup),
            r matches Some(o) ==> (o is Some <==> signals(*setup)) && (o matches Some(t) ==> signal_of(
                t,
                *setup,
                expires_at_ms,
                t.id,
            ) && is_random_uuid(t.id)),
    {
        if let Some(side) = setup.direction_bias {
            let entry_price = first_of(setup.context.invalidation_price, setup.context.reference_price);
            let stop_price = first_of(setup.context.trigger_price, setup.context.reference_price);
            if let (Some(entry), Some(stop)) = (entry_price, stop_price) {
                let long = match side {
                    TradeDirection::Long => true,
                    TradeDirection::Short => false,
                };
                let risk = if long {
                    checked_difference(&entry, &stop)
                } else {
                    checked_difference(&stop, &entry)
                };
                let risk = match risk {
                    Some(x) => x,
                    None => {
                        return None;
                    },
                };
                if dec_lt(&Dec::zero(), &risk) {
                    let one = if long {
                        checked_sum(&entry, &risk)
                    } else {
                        checked_difference(&entry, &risk)
                    };
                    if one.is_none() {
                        return None;
                    }
                    let double = match checked_product(&risk, &Dec::new(2, 0)) {
                        Some(x) => x,
                        None => {
                            return None;
                        },
                    };
                    let other = if long {
                        checked_sum(&entry, &double)
                    } else {
                        checked_difference(&entry, &double)
                    };
                    if other.is_none() {
                        return None;
                    }
                }
            }
        }
        Some(TradeSignal::from_setup(setup, expires_at_ms))
    }
}

/// Two signals carry the same data.
pub open spec fn same_signal(a: TradeSignal, b: TradeSignal) -> bool {
    &&& a.id == b.id
    &&& a.setup_id == b.setup_id
    &&& a.source_setup_type == b.source_setup_type
    &&& a.coin == b.coin
    &&& a.interval == b.interval
    &&& a.side == b.side
    &&& a.status == b.status
    &&& a.confidence == b.confidence
    &&& a.notional_usd == b.notional_usd
    &&& a.expires_at_ms == b.expires_at_ms
    &&& a.entry == b.entry
    &&& a.stop == b.stop
    &&& a.targets@ == b.targets@
    &&& a.rationale@ == b.rationale@
}

impl TradeSignal {
    /// A copy of the signal.
    pub fn duplicate(&self) -> (r: Self)
        ensures
            same_signal(r, *self),
    {
        let mut targets: Vec<TargetPlan> = Vec::new();
        let mut i: usize = 0;
        while i < self.targets.len()
            invariant
                0 <= i <= self.targets@.len(),
                targets@ == self.targets@.take(i as int),
            decreases self.targets@.len() - i,
        {
            let t = &self.targets[i];
            targets.push(TargetPlan { price: t.price, size_fraction: t.size_fraction, label: t.label.clone() });
            assert(targets@ =~= self.targets@.take(i + 1));
            i = i + 1;
        }
        let mut rationale: Vec<String> = Vec::new();
        let mut j: usize = 0;
        while j < self.rationale.len()
            invariant
                0 <= j <= self.rationale@.len(),
                rationale@ == self.rationale@.take(j as int),
            decreases self.rationale@.len() - j,
        {
            rationale.push(self.rationale[j].clone());
            assert(rationale@ =~= self.rationale@.take(j + 1));
            j = j + 1;
        }
        assert(targets@ =~= self.targets@);
        assert(rationale@ =~= self.rationale@);
        TradeSignal {
            id: self.id,
            setup_id: self.setup_id,
            source_setup_type: copy_setup_type(&self.source_setup_type),
            coin: self.coin.clone(),
            interval: self.interval.clone(),
            side: self.side,
            status: self.status,
            confidence: self.confidence,
            notional_usd: self.notional_usd,
            expires_at_ms: self.expires_at_ms,
            entry: self.entry,
            stop: self.stop,
            targets,
            rationale,
        }
    }
}

/// A signal computed without rounding has its stop on the losing side and
/// its targets on the winning side of the entry, the second target twice
/// as far as the first.
pub proof fn law_targets_beyond_entry(t: TradeSignal, s: SetupEvent, expires_at_ms: i64, id: u128)
    requires
        signals(s),
        signal_of(t, s, expires_at_ms, id),
        computed_exactly(s),
    ensures
        t.side == TradeDirection::Long ==> {
            &&& t.stop.stop_price@ < t.entry.limit_price.unwrap()@
            &&& t.entry.limit_price.unwrap()@ < t.targets@[0].price@ < t.targets@[1].price@
        },
        t.side == TradeDirection::Short ==> {
            &&& t.stop.stop_price@ > t.entry.limit_price.unwrap()@
            &&& t.entry.limit_price.unwrap()@ > t.targets@[0].price@ > t.targets@[1].price@
        },
        t.targets@[1].price@ - t.entry.limit_price.unwrap()@ == 2 * (t.targets@[0].price@
            - t.entry.limit_price.unwrap()@),
{
    let long = s.direction_bias.unwrap() == TradeDirection::Long;
    let entry = entry_of(s).unwrap();
    let stop = stop_of(s).unwrap();
    let risk = risk_of(s.direction_bias.unwrap(), entry, stop);
    let d = product_of(risk, two());
    assert(d@ == 2 * risk@ && d.scale <= risk.scale);
    // The double comes at a scale no larger than the risk's, where the
    // second target fits too.
    let s1 = max_scale(entry, risk);
    let s2 = max_scale(entry, d);
    lemma_pow10_monotone((28 - s1) as nat, (28 - s2) as nat);
    assert(MAX_MANTISSA * pow10((28 - s1) as nat) <= MAX_MANTISSA * pow10((28 - s2) as nat)) by (nonlinear_arith)
        requires
            pow10((28 - s1) as nat) <= pow10((28 - s2) as nat),
    ;
    if long {
        assert(add_fits(entry, d));
    } else {
        assert(sub_fits(entry, d));
    }
}
} // verus!
