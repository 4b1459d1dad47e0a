//! Orders for approved signals, and the paper broker that accepts them.

use vstd::prelude::*;
use vstd::string::StringExecFns;
use crate::decimal::Dec;
use crate::risk::types::ApprovedSignal;
use crate::trading::{
    EngineError, OrderIntent, OrderType, TimeInForce, TradeDirection, new_id, id_text, uuid_text,
    is_random_uuid,
};

verus! {

#[derive(Clone, Debug)]
pub struct OrderRequest {
    /// A random UUID, as its 128-bit value.
    pub id: u128,
    pub signal_id: u128,
    pub coin: String,
    pub side: TradeDirection,
    pub intent: OrderIntent,
    pub order_type: OrderType,
    pub time_in_force: TimeInForce,
    pub quantity: Dec,
    pub limit_price: Option<Dec>,
    pub stop_price: Option<Dec>,
    pub reduce_only: bool,
}

#[derive(Clone, Copy, Debug, PartialEq, Eq, Structural)]
pub enum BrokerOrderStatus {
    Accepted,
    Rejected,
    Filled,
    PartiallyFilled,
    Cancelled,
}

#[derive(Clone, Debug)]
pub struct OrderAck {
    pub broker_order_id: String,
    pub client_order_id: u128,
    pub status: BrokerOrderStatus,
    pub message: Option<String>,
}

/// Somewhere orders can be sent.
pub trait Broker {
    fn submit_order(&self, request: &OrderRequest) -> Result<OrderAck, EngineError>;

    fn cancel_order(&self, broker_order_id: &str) -> Result<(), EngineError>;
}

/// A broker that accepts every order and fills nothing.
#[derive(Debug, Default)]
pub struct PaperBroker;

/// `o` is the entry order for an approved signal: the signal's side, order
/// type, time in force and limit price, at the sized quantity, opening
/// exposure.
pub open spec fn entry_order(o: OrderRequest, s: ApprovedSignal, id: u128) -> bool {
    &&& o.id == id
    &&& o.signal_id == s.signal.id
    &&& o.coin == s.signal.coin
    &&& o.side == s.signal.side
    &&& o.intent == OrderIntent::Entry
    &&& o.order_type == s.signal.entry.order_type
    &&& o.time_in_force == s.signal.entry.time_in_force
    &&& o.quantity == s.sized_quantity
    &&& o.limit_price == s.signal.entry.limit_price
    &&& o.stop_price is None
    &&& !o.reduce_only
}

impl PaperBroker {
    /// The entry order for an approved signal, under a fresh random id.
    pub fn entry_request(signal: &ApprovedSignal) -> (o: OrderRequest)
        ensures
            entry_order(o, *signal, o.id),
            is_random_uuid(o.id),
    {
        PaperBroker::entry_request_with_id(signal, new_id())
    }

    /// The entry order for an approved signal, under the given id.
    pub fn entry_request_with_id(signal: &ApprovedSignal, id: u128) -> (o: OrderRequest)
        ensures
            entry_order(o, *signal, id),
    {
        OrderRequest {
            id,
            signal_id: signal.signal.id,
            coin: signal.signal.coin.clone(),
            side: signal.signal.side,
            intent: OrderIntent::Entry,
            order_type: signal.signal.entry.order_type,
            time_in_force: signal.signal.entry.time_in_force,
            quantity: signal.sized_quantity,
            limit_price: signal.signal.entry.limit_price,
            stop_price: None,
            reduce_only: false,
        }
    }
}

impl Broker for PaperBroker {
    /// Accepts the order under the broker id `paper-<id>`.
    fn submit_order(&self, request: &OrderRequest) -> (r: Result<OrderAck, EngineError>)
        ensures
            r matches Ok(ack) && {
                &&& ack.broker_order_id@ == "paper-"@ + uuid_text(request.id)
                &&& ack.client_order_id == request.id
                &&& ack.status == BrokerOrderStatus::Accepted
                &&& ack.message matches Some(m) && m@ == "paper broker accepted order"@
            },
    {
        Ok(OrderAck {
            broker_order_id: "paper-".to_owned().concat(id_text(request.id).as_str()),
            client_order_id: request.id,
            status: BrokerOrderStatus::Accepted,
            message: Some("paper broker accepted order".to_owned()),
        })
    }

    /// Nothing to cancel on paper.
    fn cancel_order(&self, broker_order_id: &str) -> (r: Result<(), EngineError>)
        ensures
            r is Ok,
    {
        Ok(())
    }
}

} // verus!
