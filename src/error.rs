use vstd::prelude::*;

verus! {

/// Failure while fetching or decoding upstream candles.
#[derive(Clone, Copy, Debug, PartialEq, Eq, Structural)]
pub enum SourceError {
    /// The request did not reach upstream or upstream reported an error.
    Transport,
    /// The response holds no data for the requested pair.
    MissingPair,
    /// The pair's data is not an array of candles.
    PayloadNotArray,
    /// The candle at `index` is not a well-formed tuple.
    MalformedCandle { index: usize },
}

/// Failure of the persistence layer.
#[derive(Clone, Copy, Debug, PartialEq, Eq, Structural)]
pub enum StoreError {
    Connection,
    Read,
    Write,
    Delete,
}

/// A setting that the store needs is absent.
#[derive(Clone, Copy, Debug, PartialEq, Eq, Structural)]
pub enum ConfigError {
    MissingUsername,
    MissingPassword,
    MissingHost,
    MissingDbName,
}

/// Why one ingestion cycle failed, with the step that failed.
#[derive(Clone, Copy, Debug, PartialEq, Eq, Structural)]
pub enum CycleError {
    Source(SourceError),
    Store(StoreError),
}

} // verus!
