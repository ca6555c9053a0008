use vstd::prelude::*;
use crate::decimal::Decimal;

verus! {

/// One minute candle. `timestamp` is its opening instant in seconds since
/// the Unix epoch and is the record's key in a store.
#[derive(Clone, Copy, Debug, PartialEq, Eq, Structural)]
pub struct Price {
    pub open: Decimal,
    pub high: Decimal,
    pub low: Decimal,
    pub close: Decimal,
    pub vwap: Decimal,
    pub volume: Decimal,
    pub count: u32,
    pub timestamp: i64,
}

} // verus!
