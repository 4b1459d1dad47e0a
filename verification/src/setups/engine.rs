//! Engines that turn market events into setups.

use vstd::prelude::*;
use crate::detection::types::MarketEvent;
use crate::setups::types::{SetupEvent, setup_of};
use crate::trading::EngineError;

verus! {

/// Something that reads market events as setups.
pub trait SetupEngine {
    fn evaluate_event(&self, event: &MarketEvent) -> Result<Option<SetupEvent>, EngineError>;
}

/// Every event is a setup, read as `SetupEvent::from_market_event` reads it.
#[derive(Debug, Default)]
pub struct EventAdapterSetupEngine;

impl SetupEngine for EventAdapterSetupEngine {
    fn evaluate_event(&self, event: &MarketEvent) -> (r: Result<Option<SetupEvent>, EngineError>)
        ensures
            r matches Ok(Some(s)) && setup_of(s, *event, s.id),
    {
        Ok(Some(SetupEvent::from_market_event(event)))
    }
}

} // verus!
