//! Engines that turn setups into trade signals.

use vstd::prelude::*;
use crate::setups::types::SetupEvent;
use crate::signals::types::{TradeSignal, setup_prices_ok, signal_computable, signals, signal_of};
use crate::trading::EngineError;

verus! {

/// Something that draws trade signals from setups.
pub trait SignalEngine {
    /// The setups and times the engine can handle.
    spec fn can_generate(&self, setup: SetupEvent, now_ms: i64) -> bool;

    fn generate(&self, setup: &SetupEvent, now_ms: i64) -> (r: Result<Option<TradeSignal>, EngineError>)
        requires
            self.can_generate(*setup, now_ms),
    ;
}

/// Signals straight from setups, valid for `ttl_ms` after generation.
#[derive(Clone, Copy, Debug)]
pub struct RuleBasedSignalEngine {
    pub ttl_ms: i64,
}

impl Default for RuleBasedSignalEngine {
    /// Signals valid for fifteen minutes.
    fn default() -> (r: Self)
        ensures
            r.ttl_ms == 900_000,
    {
        RuleBasedSignalEngine { ttl_ms: 15 * 60_000 }
    }
}

impl SignalEngine for RuleBasedSignalEngine {
    open spec fn can_generate(&self, setup: SetupEvent, now_ms: i64) -> bool {
        &&& setup_prices_ok(setup)
        &&& signal_computable(setup)
        &&& i64::MIN <= now_ms + self.ttl_ms <= i64::MAX
    }

    fn generate(&self, setup: &SetupEvent, now_ms: i64) -> (r: Result<Option<TradeSignal>, EngineError>)
        ensures
            r matches Ok(o) && (o is Some <==> signals(*setup)) && (o matches Some(t) ==> signal_of(
                t,
                *setup,
                (now_ms + self.ttl_ms) as i64,
                t.id,
            )),
    {
        Ok(TradeSignal::from_setup(setup, now_ms + self.ttl_ms))
    }
}

} // verus!
