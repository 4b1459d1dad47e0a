//! Candle snapshots from the exchange: the candles arrive with their
//! prices and volume as text and become OHLCV rows.

use vstd::prelude::*;
use vstd::string::StringExecFns;
use crate::db::trades::OhlcvRow;
use crate::decimal::{Dec, dec_parse, parsed_decimal};

verus! {

/// One candle as the snapshot endpoint returns it.
#[derive(Clone, Debug)]
pub struct HyperliquidCandle {
    /// Open time in milliseconds.
    pub t: i64,
    pub o: String,
    pub h: String,
    pub l: String,
    pub c: String,
    pub v: String,
}

#[derive(Clone, Copy, Debug, PartialEq, Eq, Structural)]
pub enum CandleField {
    Open,
    High,
    Low,
    Close,
    Volume,
}

/// A candle field that is not a decimal, and its text.
#[derive(Clone, Debug)]
pub struct CandleParseError {
    pub field: CandleField,
    pub value: String,
}

pub open spec fn field_name(f: CandleField) -> Seq<char> {
    match f {
        CandleField::Open => "invalid open "@,
        CandleField::High => "invalid high "@,
        CandleField::Low => "invalid low "@,
        CandleField::Close => "invalid close "@,
        CandleField::Volume => "invalid volume "@,
    }
}

impl CandleParseError {
    pub fn message(&self) -> (r: String)
        ensures
            r@ == field_name(self.field) + self.value@,
    {
        let head = match self.field {
            CandleField::Open => "invalid open ".to_owned(),
            CandleField::High => "invalid high ".to_owned(),
            CandleField::Low => "invalid low ".to_owned(),
            CandleField::Close => "invalid close ".to_owned(),
            CandleField::Volume => "invalid volume ".to_owned(),
        };
        head.concat(self.value.as_str())
    }
}

/// The row for a candle whose fields were read (or not): the first field
/// that is missing, in the order open, high, low, close, volume, is the
/// error.
pub open spec fn row_outcome(
    r: Result<OhlcvRow, CandleParseError>,
    c: HyperliquidCandle,
    fields: (Option<Dec>, Option<Dec>, Option<Dec>, Option<Dec>, Option<Dec>),
) -> bool {
    match fields {
        (Some(o), Some(h), Some(l), Some(cl), Some(v)) => r == Ok::<OhlcvRow, CandleParseError>(
            OhlcvRow { bucket_ms: c.t, open: o, high: h, low: l, close: cl, volume: v },
        ),
        (None, _, _, _, _) => r matches Err(e) && e.field == CandleField::Open && e.value == c.o,
        (Some(_), None, _, _, _) => r matches Err(e) && e.field == CandleField::High && e.value == c.h,
        (Some(_), Some(_), None, _, _) => r matches Err(e) && e.field == CandleField::Low && e.value == c.l,
        (Some(_), Some(_), Some(_), None, _) => r matches Err(e) && e.field == CandleField::Close && e.value
            == c.c,
        (Some(_), Some(_), Some(_), Some(_), None) => r matches Err(e) && e.field == CandleField::Volume
            && e.value == c.v,
    }
}

/// The fields of a candle as `Decimal::from_str` reads them.
pub open spec fn parsed_fields(c: HyperliquidCandle) -> (Option<Dec>, Option<Dec>, Option<Dec>, Option<Dec>, Option<Dec>) {
    (parsed_decimal(c.o@), parsed_decimal(c.h@), parsed_decimal(c.l@), parsed_decimal(c.c@), parsed_decimal(c.v@))
}

/// The row of a candle whose fields were read already.
pub fn candle_from_parts(
    c: &HyperliquidCandle,
    fields: (Option<Dec>, Option<Dec>, Option<Dec>, Option<Dec>, Option<Dec>),
) -> (r: Result<OhlcvRow, CandleParseError>)
    ensures
        row_outcome(r, *c, fields),
{
    let (o, h, l, cl, v) = fields;
    let open = match o {
        Some(x) => x,
        None => {
            return Err(CandleParseError { field: CandleField::Open, value: c.o.clone() });
        },
    };
    let high = match h {
        Some(x) => x,
        None => {
            return Err(CandleParseError { field: CandleField::High, value: c.h.clone() });
        },
    };
    let low = match l {
        Some(x) => x,
        None => {
            return Err(CandleParseError { field: CandleField::Low, value: c.l.clone() });
        },
    };
    let close = match cl {
        Some(x) => x,
        None => {
            return Err(CandleParseError { field: CandleField::Close, value: c.c.clone() });
        },
    };
    let volume = match v {
        Some(x) => x,
        None => {
            return Err(CandleParseError { field: CandleField::Volume, value: c.v.clone() });
        },
    };
    Ok(OhlcvRow { bucket_ms: c.t, open, high, low, close, volume })
}

/// Reads one candle.
pub fn candle_row(c: &HyperliquidCandle) -> (r: Result<OhlcvRow, CandleParseError>)
    ensures
        row_outcome(r, *c, parsed_fields(*c)),
{
    let fields = (
        dec_parse(c.o.as_str()),
        dec_parse(c.h.as_str()),
        dec_parse(c.l.as_str()),
        dec_parse(c.c.as_str()),
        dec_parse(c.v.as_str()),
    );
    candle_from_parts(c, fields)
}

/// All fields of the candle read as decimals.
pub open spec fn readable_candle(c: HyperliquidCandle) -> bool {
    let f = parsed_fields(c);
    f.0 is Some && f.1 is Some && f.2 is Some && f.3 is Some && f.4 is Some
}

/// Reads a snapshot: all its rows, in order, or the error of the first
/// candle that does not read.
pub fn candle_rows(cs: &Vec<HyperliquidCandle>) -> (r: Result<Vec<OhlcvRow>, CandleParseError>)
    ensures
        match r {
            Ok(rows) => {
                &&& rows@.len() == cs@.len()
                &&& forall|k: int| 0 <= k < cs@.len() ==> row_outcome(
                    Ok(#[trigger] rows@[k]),
                    cs@[k],
                    parsed_fields(cs@[k]),
                )
            },
            Err(e) => exists|k: int|
                0 <= k < cs@.len() && !readable_candle(#[trigger] cs@[k]) && (forall|j: int|
                    0 <= j < k ==> readable_candle(cs@[j])) && row_outcome(Err(e), cs@[k], parsed_fields(cs@[k])),
        },
{
    let mut rows: Vec<OhlcvRow> = Vec::new();
    let mut i: usize = 0;
    while i < cs.len()
        invariant
            0 <= i <= cs@.len(),
            rows@.len() == i,
            forall|k: int| 0 <= k < i ==> readable_candle(cs@[k]),
            forall|k: int| 0 <= k < i ==> row_outcome(Ok(#[trigger] rows@[k]), cs@[k], parsed_fields(cs@[k])),
        decreases cs@.len() - i,
    {
        match candle_row(&cs[i]) {
            Ok(row) => {
                rows.push(row);
            },
            Err(e) => {
                assert(!readable_candle(cs@[i as int]));
                return Err(e);
            },
        }
        i = i + 1;
    }
    Ok(rows)
}

} // verus!
