//! Vocabulary shared by setups, signals, risk and execution.

use vstd::prelude::*;
use vstd::arithmetic::power2::pow2;
use crate::decimal::Dec;
use uuid::Uuid;

verus! {

/// Direction of a trade idea or position.
#[derive(Clone, Copy, Debug, PartialEq, Eq, Structural)]
pub enum TradeDirection {
    Long,
    Short,
}

/// How an order is placed.
#[derive(Clone, Copy, Debug, PartialEq, Eq, Structural)]
pub enum OrderType {
    Market,
    Limit,
}

/// How long an order rests on the book.
#[derive(Clone, Copy, Debug, PartialEq, Eq, Structural)]
pub enum TimeInForce {
    Gtc,
    Ioc,
}

/// Where a trade signal stands.
#[derive(Clone, Copy, Debug, PartialEq, Eq, Structural)]
pub enum SignalStatus {
    Candidate,
    Approved,
    Rejected,
    Expired,
}

/// Whether an order opens or closes exposure.
#[derive(Clone, Copy, Debug, PartialEq, Eq, Structural)]
pub enum OrderIntent {
    Entry,
    Exit,
}

/// The side of the current position in a coin.
#[derive(Clone, Copy, Debug, PartialEq, Eq, Structural)]
pub enum PositionSide {
    Flat,
    Long,
    Short,
}

/// Market data a risk decision may consult.
#[derive(Clone, Copy, Debug)]
pub struct MarketSnapshot {
    pub last_price: Option<Dec>,
    pub timestamp_ms: i64,
}

/// Why an engine or a broker could not answer.
#[derive(Clone, Debug)]
pub struct EngineError {
    pub message: String,
}

/// The version and variant bits of a random (version 4, RFC 4122) UUID.
pub open spec fn is_random_uuid(id: u128) -> bool {
    id & 0xF000_C000_0000_0000_0000u128 == 0x4000_8000_0000_0000_0000u128
}

/// A fresh identifier from `Uuid::new_v4`, as its 128-bit value. The
/// value is random; the uuid source masks in the version and variant bits
/// on every call, which is all that is stated.
#[verifier::external_body]
pub(crate) fn new_id() -> (r: u128)
    ensures
        is_random_uuid(r),
{
    Uuid::new_v4().as_u128()
}

/// The lowercase hex digit for `n` in 0..16.
pub open spec fn hex_digit(n: int) -> char {
    if n < 10 {
        (48 + n) as char
    } else {
        (87 + n) as char
    }
}

/// The 32 hex digits of an id, most significant first.
pub open spec fn hex_digits(id: u128) -> Seq<char> {
    Seq::new(32, |k: int| hex_digit((id as int / (pow2((4 * (31 - k)) as nat) as int)) % 16))
}

/// The hyphenated lowercase form `Uuid`'s `Display` writes for an id:
/// its hex digits in groups of 8, 4, 4, 4 and 12.
pub open spec fn uuid_text(id: u128) -> Seq<char> {
    let h = hex_digits(id);
    h.subrange(0, 8) + seq!['-'] + h.subrange(8, 12) + seq!['-'] + h.subrange(12, 16) + seq!['-']
        + h.subrange(16, 20) + seq!['-'] + h.subrange(20, 32)
}

/// `Uuid::from_u128(id).to_string()`: the id's big-endian bytes in the
/// hyphenated lowercase form.
#[verifier::external_body]
pub(crate) fn id_text(id: u128) -> (r: String)
    ensures
        r@ == uuid_text(id),
{
    Uuid::from_u128(id).to_string()
}

} // verus!
