//! A setup: a detected event read as a trading opportunity, with the
//! prices that define it.

use vstd::prelude::*;
use crate::decimal::Dec;
use crate::detection::types::{
    CascadeDirection, EventLifecycle, EventType, MarketEvent, SweepDirection,
};
use crate::trading::{TradeDirection, new_id, is_random_uuid};

verus! {

#[derive(Clone, Debug, PartialEq, Eq)]
pub enum SetupType {
    LiquiditySweep,
    LiquidationCascade,
    FailedReclaim,
    Custom(String),
}

/// A copy of a setup type.
pub fn copy_setup_type(t: &SetupType) -> (r: SetupType)
    ensures
        r == *t,
{
    match t {
        SetupType::LiquiditySweep => SetupType::LiquiditySweep,
        SetupType::LiquidationCascade => SetupType::LiquidationCascade,
        SetupType::FailedReclaim => SetupType::FailedReclaim,
        SetupType::Custom(s) => SetupType::Custom(s.clone()),
    }
}

#[derive(Clone, Copy, Debug, PartialEq, Eq, Structural)]
pub enum SetupStatus {
    Detected,
    Confirming,
    Confirmed,
    Invalidated,
    Expired,
}

/// The prices and references that define a setup.
#[derive(Clone, Debug)]
pub struct SetupContext {
    pub event_id: Option<i64>,
    pub reference_price: Option<Dec>,
    pub trigger_price: Option<Dec>,
    pub invalidation_price: Option<Dec>,
    pub htf_confluence_count: usize,
    pub notes: Vec<String>,
}

#[derive(Clone, Debug)]
pub struct SetupEvent {
    /// A random UUID, as its 128-bit value.
    pub id: u128,
    pub coin: String,
    pub interval: String,
    pub setup_type: SetupType,
    pub status: SetupStatus,
    pub detected_at_ms: i64,
    pub direction_bias: Option<TradeDirection>,
    pub strength: Dec,
    pub context: SetupContext,
}

/// The setup status of an event lifecycle: a reclassified event's setup
/// is invalidated, the others keep their stage.
pub open spec fn status_of(l: EventLifecycle) -> SetupStatus {
    match l {
        EventLifecycle::Detected => SetupStatus::Detected,
        EventLifecycle::Confirming => SetupStatus::Confirming,
        EventLifecycle::Confirmed => SetupStatus::Confirmed,
        EventLifecycle::Reclassified => SetupStatus::Invalidated,
        EventLifecycle::Expired => SetupStatus::Expired,
    }
}

pub fn map_lifecycle(lifecycle: &EventLifecycle) -> (r: SetupStatus)
    ensures
        r == status_of(*lifecycle),
{
    match lifecycle {
        EventLifecycle::Detected => SetupStatus::Detected,
        EventLifecycle::Confirming => SetupStatus::Confirming,
        EventLifecycle::Confirmed => SetupStatus::Confirmed,
        EventLifecycle::Reclassified => SetupStatus::Invalidated,
        EventLifecycle::Expired => SetupStatus::Expired,
    }
}

pub open spec fn or_else(a: Option<Dec>, b: Option<Dec>) -> Option<Dec> {
    match a {
        Some(x) => Some(x),
        None => b,
    }
}

/// `s` is the setup of event `e` with id `id`. A bullish sweep suggests a
/// long, a bearish one a short; a cascade that liquidated longs suggests a
/// short, one that liquidated shorts a long. A sweep's reference is the
/// swept level, its trigger the wick tip and its invalidation the close; a
/// cascade's reference is its start, its trigger the close (or the start).
/// The strength is the wick fraction, else the volume acceleration, else
/// one.
pub open spec fn setup_of(s: SetupEvent, e: MarketEvent, id: u128) -> bool {
    &&& s.id == id
    &&& s.coin == e.coin
    &&& s.interval == e.interval
    &&& s.status == status_of(e.lifecycle)
    &&& s.detected_at_ms == e.event_ts_ms
    &&& s.strength == (match or_else(e.wick_pct, e.volume_acceleration) {
        Some(x) => x,
        None => Dec { mantissa: 1, scale: 0 },
    })
    &&& s.context.event_id == e.id
    &&& s.context.htf_confluence_count == e.htf_confluence@.len()
    &&& s.context.notes@.len() == 0
    &&& match e.event_type {
        EventType::LiquiditySweep => {
            &&& s.setup_type == SetupType::LiquiditySweep
            &&& s.direction_bias == (match e.sweep_direction {
                Some(SweepDirection::Bullish) => Some(TradeDirection::Long),
                Some(SweepDirection::Bearish) => Some(TradeDirection::Short),
                None => None,
            })
            &&& s.context.reference_price == e.level_price
            &&& s.context.trigger_price == e.sweep_extreme
            &&& s.context.invalidation_price == e.close_price
        },
        EventType::LiquidationCascade => {
            &&& s.setup_type == SetupType::LiquidationCascade
            &&& s.direction_bias == (match e.cascade_direction {
                Some(CascadeDirection::LongLiq) => Some(TradeDirection::Short),
                Some(CascadeDirection::ShortLiq) => Some(TradeDirection::Long),
                None => None,
            })
            &&& s.context.reference_price == e.cascade_start_price
            &&& s.context.trigger_price == or_else(e.close_price, e.cascade_start_price)
            &&& s.context.invalidation_price is None
        },
    }
}

fn first_of(a: Option<Dec>, b: Option<Dec>) -> (r: Option<Dec>)
    ensures
        r == or_else(a, b),
{
    match a {
        Some(x) => Some(x),
        None => b,
    }
}

impl SetupEvent {
    /// The setup a market event stands for, under a fresh random id.
    pub fn from_market_event(event: &MarketEvent) -> (s: Self)
        ensures
            setup_of(s, *event, s.id),
            is_random_uuid(s.id),
    {
        SetupEvent::from_market_event_with_id(event, new_id())
    }

    /// The setup a market event stands for, under the given id.
    pub fn from_market_event_with_id(event: &MarketEvent, id: u128) -> (s: Self)
        ensures
            setup_of(s, *event, id),
    {
        let (setup_type, direction_bias, reference_price, trigger_price, invalidation_price) =
            match event.event_type {
            EventType::LiquiditySweep => (
                SetupType::LiquiditySweep,
                match event.sweep_direction {
                    Some(SweepDirection::Bullish) => Some(TradeDirection::Long),
                    Some(SweepDirection::Bearish) => Some(TradeDirection::Short),
                    None => None,
                },
                event.level_price,
                event.sweep_extreme,
                event.close_price,
            ),
            EventType::LiquidationCascade => (
                SetupType::LiquidationCascade,
                match event.cascade_direction {
                    Some(CascadeDirection::LongLiq) => Some(TradeDirection::Short),
                    Some(CascadeDirection::ShortLiq) => Some(TradeDirection::Long),
                    None => None,
                },
                event.cascade_start_price,
                first_of(event.close_price, event.cascade_start_price),
                None,
            ),
        };
        let strength = match first_of(event.wick_pct, event.volume_acceleration) {
            Some(x) => x,
            None => Dec::one(),
        };
        SetupEvent {
            id,
            coin: event.coin.clone(),
            interval: event.interval.clone(),
            setup_type,
            status: map_lifecycle(&event.lifecycle),
            detected_at_ms: event.event_ts_ms,
            direction_bias,
            strength,
            context: SetupContext {
                event_id: event.id,
                reference_price,
                trigger_price,
                invalidation_price,
                htf_confluence_count: event.htf_confluence.len(),
                notes: Vec::new(),
            },
        }
    }
}

} // verus!
