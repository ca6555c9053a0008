use vstd::prelude::*;
use crate::decimal::{Decimal, decimal_of, parse_decimal};
use crate::error::SourceError;
use crate::time::valid_epoch;
use crate::types::Price;

verus! {

/// One field of an upstream candle tuple.
#[derive(Debug)]
pub enum Cell {
    Integer(i128),
    /// The bytes of a string field.
    Text(Vec<u8>),
    Other,
}

/// One entry of the upstream candle array.
#[derive(Debug)]
pub enum Row {
    Tuple(Vec<Cell>),
    Other,
}

/// What the upstream response holds under the requested pair.
#[derive(Debug)]
pub enum PairData {
    Missing,
    NotArray,
    Rows(Vec<Row>),
}

pub open spec fn text_decimal(c: Cell) -> Option<Decimal> {
    match c {
        Cell::Text(t) => decimal_of(t@),
        _ => None,
    }
}

pub open spec fn cell_epoch(c: Cell) -> bool {
    c matches Cell::Integer(e) && valid_epoch(e as int)
}

pub open spec fn cell_count(c: Cell) -> bool {
    c matches Cell::Integer(n) && 0 <= n <= u32::MAX
}

/// The candle that a tuple `[epoch, open, high, low, close, _, volume, count]`
/// denotes; vwap and volume are both read from the seventh field.
pub open spec fn decode_cells(c: Seq<Cell>) -> Option<Price> {
    if c.len() >= 8 && cell_epoch(c[0]) && text_decimal(c[1]) is Some && text_decimal(c[2]) is Some
        && text_decimal(c[3]) is Some && text_decimal(c[4]) is Some && text_decimal(c[6]) is Some
        && cell_count(c[7]) {
        Some(
            Price {
                open: text_decimal(c[1])->0,
                high: text_decimal(c[2])->0,
                low: text_decimal(c[3])->0,
                close: text_decimal(c[4])->0,
                vwap: text_decimal(c[6])->0,
                volume: text_decimal(c[6])->0,
                count: (c[7]->Integer_0) as u32,
                timestamp: (c[0]->Integer_0) as i64,
            },
        )
    } else {
        None
    }
}

pub open spec fn decode_row(r: Row) -> Option<Price> {
    match r {
        Row::Tuple(c) => decode_cells(c@),
        Row::Other => None,
    }
}

pub open spec fn all_rows_decode(rows: Seq<Row>) -> bool {
    forall|i: int| 0 <= i < rows.len() ==> (#[trigger] decode_row(rows[i])) is Some
}

/// The decoded candles of `rows` that open at or after `since`, in order.
pub open spec fn kept_candles(rows: Seq<Row>, since: int) -> Seq<Price>
    decreases rows.len(),
{
    if rows.len() == 0 {
        Seq::empty()
    } else {
        let prev = kept_candles(rows.drop_last(), since);
        let p = decode_row(rows.last())->0;
        if p.timestamp >= since {
            prev.push(p)
        } else {
            prev
        }
    }
}

fn text_field(c: &Cell) -> (r: Option<Decimal>)
    ensures
        r == text_decimal(*c),
{
    match c {
        Cell::Text(t) => parse_decimal(t.as_slice()),
        _ => None,
    }
}

/// Decodes one candle tuple.
pub fn decode_candle(row: &Row) -> (r: Option<Price>)
    ensures
        r == decode_row(*row),
{
    let c = match row {
        Row::Tuple(c) => c,
        Row::Other => {
            return None;
        },
    };
    if c.len() < 8 {
        return None;
    }
    let timestamp = match &c[0] {
        Cell::Integer(e) => {
            if 0 <= *e && *e <= crate::time::MAX_EPOCH as i128 {
                *e as i64
            } else {
                return None;
            }
        },
        _ => {
            return None;
        },
    };
    let open = match text_field(&c[1]) {
        Some(d) => d,
        None => {
            return None;
        },
    };
    let high = match text_field(&c[2]) {
        Some(d) => d,
        None => {
            return None;
        },
    };
    let low = match text_field(&c[3]) {
        Some(d) => d,
        None => {
            return None;
        },
    };
    let close = match text_field(&c[4]) {
        Some(d) => d,
        None => {
            return None;
        },
    };
    let volume = match text_field(&c[6]) {
        Some(d) => d,
        None => {
            return None;
        },
    };
    let count = match &c[7] {
        Cell::Integer(n) => {
            if 0 <= *n && *n <= u32::MAX as i128 {
                *n as u32
            } else {
                return None;
            }
        },
        _ => {
            return None;
        },
    };
    Some(Price { open, high, low, close, vwap: volume, volume, count, timestamp })
}

/// Decodes the candle array of the requested pair and keeps the candles that
/// open at or after `since`. Any malformed entry fails the whole batch.
pub fn decode_candles(data: &PairData, since: i64) -> (r: Result<Vec<Price>, SourceError>)
    ensures
        data is Missing ==> r == Err::<Vec<Price>, SourceError>(SourceError::MissingPair),
        data is NotArray ==> r == Err::<Vec<Price>, SourceError>(SourceError::PayloadNotArray),
        data matches PairData::Rows(rows) ==> {
            &&& (r is Ok <==> all_rows_decode(rows@))
            &&& (r matches Ok(v) ==> v@ == kept_candles(rows@, since as int))
            &&& (r matches Err(e) ==> e matches SourceError::MalformedCandle { index } && index
                < rows@.len() && decode_row(rows@[index as int]) is None && forall|j: int|
                0 <= j < index ==> (#[trigger] decode_row(rows@[j])) is Some)
        },
        r matches Ok(v) ==> forall|k: int| 0 <= k < v@.len() ==> (#[trigger] v@[k]).timestamp >= since,
{
    let rows = match data {
        PairData::Missing => {
            return Err(SourceError::MissingPair);
        },
        PairData::NotArray => {
            return Err(SourceError::PayloadNotArray);
        },
        PairData::Rows(rows) => rows,
    };
    let mut out: Vec<Price> = Vec::new();
    let mut i: usize = 0;
    while i < rows.len()
        invariant
            0 <= i <= rows@.len(),
            data matches PairData::Rows(rr) && rr@ == rows@,
            forall|j: int| 0 <= j < i ==> (#[trigger] decode_row(rows@[j])) is Some,
            out@ == kept_candles(rows@.take(i as int), since as int),
            forall|k: int| 0 <= k < out@.len() ==> (#[trigger] out@[k]).timestamp >= since,
        decreases rows.len() - i,
    {
        let ghost t = rows@.take(i as int + 1);
        assert(t.drop_last() =~= rows@.take(i as int));
        match decode_candle(&rows[i]) {
            Some(p) => {
                if p.timestamp >= since {
                    out.push(p);
                }
            },
            None => {
                return Err(SourceError::MalformedCandle { index: i });
            },
        }
        i = i + 1;
    }
    assert(rows@.take(rows@.len() as int) =~= rows@);
    Ok(out)
}

} // verus!
