//! Typed trades read from the exchange's trade messages.

use vstd::prelude::*;
use vstd::string::StringExecFns;
use crate::decimal::{Dec, dec_parse, parsed_decimal};
use crate::text::{text_eq, to_upper, trim, trimmed, uppercase};

verus! {

/// The side code for an upper-cased side marker: the exchange may send
/// bid/ask style markers as well as buy/sell ones.
pub open spec fn side_code_of(u: Seq<char>) -> Option<Seq<char>> {
    if u == "B"@ || u == "BID"@ || u == "BUY"@ {
        Some("B"@)
    } else if u == "S"@ || u == "ASK"@ || u == "SELL"@ || u == "A"@ {
        Some("S"@)
    } else {
        None
    }
}

/// The side code `B` or `S` for an upper-cased marker.
pub fn side_code(upper: &str) -> (r: Option<String>)
    ensures
        match side_code_of(upper@) {
            Some(c) => r matches Some(s) && s@ == c,
            None => r is None,
        },
{
    if text_eq(upper, "B") || text_eq(upper, "BID") || text_eq(upper, "BUY") {
        Some("B".to_owned())
    } else if text_eq(upper, "S") || text_eq(upper, "ASK") || text_eq(upper, "SELL") || text_eq(upper, "A") {
        Some("S".to_owned())
    } else {
        None
    }
}

/// The side code of a side marker, trimmed and upper-cased first.
pub open spec fn normalized_side(side: Seq<char>) -> Option<Seq<char>> {
    side_code_of(uppercase(trimmed(side)))
}

pub fn normalize_side(side: &str) -> (r: Option<String>)
    ensures
        match normalized_side(side@) {
            Some(c) => r matches Some(s) && s@ == c,
            None => r is None,
        },
{
    let t = trim(side);
    let u = to_upper(t.as_str());
    side_code(u.as_str())
}

/// One trade as it arrives in a trades message, prices and sizes as text.
#[derive(Clone, Debug)]
pub struct RawTrade {
    pub coin: String,
    pub side: String,
    pub px: String,
    pub sz: String,
    /// Milliseconds since the epoch.
    pub time: i64,
    pub hash: String,
    /// Whether the trade came with liquidation details.
    pub liquidation: bool,
}

/// A parsed trade, ready to be stored and broadcast.
#[derive(Clone, Debug)]
pub struct Trade {
    pub coin: String,
    pub side: String,
    pub price: Dec,
    pub size: Dec,
    pub timestamp_ms: i64,
    pub trade_hash: String,
    pub is_liquidation: bool,
}

impl Trade {
    pub open spec fn wf(&self) -> bool {
        self.price.wf() && self.size.wf()
    }
}

#[derive(Clone, Copy, Debug, PartialEq, Eq, Structural)]
pub enum TradeErrorKind {
    InvalidPrice,
    InvalidSize,
    InvalidSide,
}

/// Why a raw trade was not read: which field, and its text.
#[derive(Clone, Debug)]
pub struct TradeError {
    pub kind: TradeErrorKind,
    pub value: String,
}

impl TradeError {
    pub fn message(&self) -> (r: String)
        ensures
            r@ == (match self.kind {
                TradeErrorKind::InvalidPrice => "invalid price: "@,
                TradeErrorKind::InvalidSize => "invalid size: "@,
                TradeErrorKind::InvalidSide => "invalid side: "@,
            }) + self.value@,
    {
        let head = match self.kind {
            TradeErrorKind::InvalidPrice => "invalid price: ".to_owned(),
            TradeErrorKind::InvalidSize => "invalid size: ".to_owned(),
            TradeErrorKind::InvalidSide => "invalid side: ".to_owned(),
        };
        head.concat(self.value.as_str())
    }
}

/// `t` is the trade read from `raw` with the given price, size and side.
pub open spec fn trade_from(t: Trade, raw: RawTrade, price: Dec, size: Dec, side: Seq<char>) -> bool {
    &&& t.coin == raw.coin
    &&& t.side@ == side
    &&& t.price == price
    &&& t.size == size
    &&& t.timestamp_ms == raw.time
    &&& t.trade_hash == raw.hash
    &&& t.is_liquidation == raw.liquidation
}

/// Reading a raw trade once its price, size and side are known: the first
/// of them that is missing, in that order, is the error.
pub open spec fn read_outcome(
    r: Result<Trade, TradeError>,
    raw: RawTrade,
    price: Option<Dec>,
    size: Option<Dec>,
    side: Option<Seq<char>>,
) -> bool {
    match (price, size, side) {
        (Some(p), Some(s), Some(d)) => r matches Ok(t) && trade_from(t, raw, p, s, d),
        (None, _, _) => r matches Err(e) && e.kind == TradeErrorKind::InvalidPrice && e.value == raw.px,
        (Some(_), None, _) => r matches Err(e) && e.kind == TradeErrorKind::InvalidSize && e.value == raw.sz,
        (Some(_), Some(_), None) => r matches Err(e) && e.kind == TradeErrorKind::InvalidSide && e.value
            == raw.side,
    }
}

impl Trade {
    /// The trade for a raw trade whose price, size and side code were
    /// read (or not) already.
    pub fn from_parts(raw: &RawTrade, price: Option<Dec>, size: Option<Dec>, side: Option<String>) -> (r:
        Result<Trade, TradeError>)
        ensures
            read_outcome(
                r,
                *raw,
                price,
                size,
                match side {
                    Some(s) => Some(s@),
                    None => None,
                },
            ),
    {
        let price = match price {
            Some(p) => p,
            None => {
                return Err(TradeError { kind: TradeErrorKind::InvalidPrice, value: raw.px.clone() });
            },
        };
        let size = match size {
            Some(s) => s,
            None => {
                return Err(TradeError { kind: TradeErrorKind::InvalidSize, value: raw.sz.clone() });
            },
        };
        let side = match side {
            Some(s) => s,
            None => {
                return Err(TradeError { kind: TradeErrorKind::InvalidSide, value: raw.side.clone() });
            },
        };
        Ok(Trade {
            coin: raw.coin.clone(),
            side,
            price,
            size,
            timestamp_ms: raw.time,
            trade_hash: raw.hash.clone(),
            is_liquidation: raw.liquidation,
        })
    }

    /// Reads a raw trade: its price and size as decimals and its side as a
    /// side code, in that order.
    pub fn from_raw(raw: &RawTrade) -> (r: Result<Trade, TradeError>)
        ensures
            read_outcome(
                r,
                *raw,
                parsed_decimal(raw.px@),
                parsed_decimal(raw.sz@),
                normalized_side(raw.side@),
            ),
            r matches Ok(t) ==> t.wf(),
    {
        let price = dec_parse(raw.px.as_str());
        let size = dec_parse(raw.sz.as_str());
        let side = normalize_side(raw.side.as_str());
        Trade::from_parts(raw, price, size, side)
    }
}

/// Only messages of the trades channel carry trades.
pub fn is_trades_channel(channel: &str) -> (r: bool)
    ensures
        r == (channel@ == "trades"@),
{
    text_eq(channel, "trades")
}

/// The raw trades that read cleanly.
pub open spec fn readable(raws: Seq<RawTrade>) -> Seq<RawTrade>
    decreases raws.len(),
{
    if raws.len() == 0 {
        seq![]
    } else {
        let prev = readable(raws.drop_last());
        let r = raws.last();
        if parsed_decimal(r.px@) is Some && parsed_decimal(r.sz@) is Some && normalized_side(r.side@) is Some {
            prev.push(r)
        } else {
            prev
        }
    }
}

/// The trades of a trades message, in order; raw trades that do not read
/// are skipped.
pub fn trades_from_raw(raws: &Vec<RawTrade>) -> (r: Vec<Trade>)
    ensures
        r@.len() == readable(raws@).len(),
        forall|k: int|
            0 <= k < r@.len() ==> {
                let raw = readable(raws@)[k];
                &&& (#[trigger] r@[k]).wf()
                &&& trade_from(
                    r@[k],
                    raw,
                    parsed_decimal(raw.px@).unwrap(),
                    parsed_decimal(raw.sz@).unwrap(),
                    normalized_side(raw.side@).unwrap(),
                )
            },
{
    let mut out: Vec<Trade> = Vec::new();
    let mut i: usize = 0;
    while i < raws.len()
        invariant
            0 <= i <= raws@.len(),
            out@.len() == readable(raws@.take(i as int)).len(),
            forall|k: int|
                0 <= k < out@.len() ==> {
                    let raw = readable(raws@.take(i as int))[k];
                    &&& (#[trigger] out@[k]).wf()
                    &&& trade_from(
                        out@[k],
                        raw,
                        parsed_decimal(raw.px@).unwrap(),
                        parsed_decimal(raw.sz@).unwrap(),
                        normalized_side(raw.side@).unwrap(),
                    )
                },
        decreases raws@.len() - i,
    {
        assert(raws@.take(i + 1).drop_last() =~= raws@.take(i as int));
        let ghost before = out@;
        match Trade::from_raw(&raws[i]) {
            Ok(t) => {
                out.push(t);
            },
            Err(_) => {},
        }
        proof {
            let want = readable(raws@.take(i + 1));
            assert forall|k: int| 0 <= k < out@.len() implies {
                let raw = want[k];
                &&& (#[trigger] out@[k]).wf()
                &&& trade_from(
                    out@[k],
                    raw,
                    parsed_decimal(raw.px@).unwrap(),
                    parsed_decimal(raw.sz@).unwrap(),
                    normalized_side(raw.side@).unwrap(),
                )
            } by {
                if k < before.len() {
                    assert(out@[k] == before[k]);
                }
            }
        }
        i = i + 1;
    }
    assert(raws@.take(raws@.len() as int) =~= raws@);
    out
}

/// Every side marker reads as `B`, `S`, or not at all.
pub proof fn law_side_codes(u: Seq<char>)
    ensures
        side_code_of(u) matches Some(c) ==> c == "B"@ || c == "S"@,
        side_code_of("B"@) == Some("B"@),
        side_code_of("S"@) == Some("S"@),
{
    reveal_strlit("B");
    reveal_strlit("BID");
    reveal_strlit("BUY");
    reveal_strlit("S");
}
} // verus!
