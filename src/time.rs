use vstd::prelude::*;

verus! {

/// Seconds in one minute: the width of one candle.
pub const MINUTE_SECS: i64 = 60;

/// Seconds in the retention window of thirty days.
pub const RETENTION_SECS: i64 = 2592000;

/// Last second of the year 9999, the latest instant a candle may carry.
pub const MAX_EPOCH: i64 = 253402300799;

/// An instant, in seconds since the Unix epoch, that a stored candle may carry.
pub open spec fn valid_epoch(t: int) -> bool {
    0 <= t <= MAX_EPOCH
}

/// The cursor from which the next fetch starts: one minute past the latest
/// stored candle, or the start of the retention window when nothing is stored.
pub open spec fn cursor_spec(latest: Option<i64>, now: i64) -> int {
    match latest {
        Some(t) => t + MINUTE_SECS,
        None => now - RETENTION_SECS,
    }
}

/// Candles strictly older than this instant fall out of the retention window.
pub open spec fn cutoff_spec(now: i64) -> int {
    now - RETENTION_SECS
}

/// The resumption point of ingestion, computed from the latest stored
/// timestamp and the current time.
pub fn next_cursor(latest: Option<i64>, now: i64) -> (r: i64)
    requires
        valid_epoch(now as int),
        latest matches Some(t) ==> valid_epoch(t as int),
    ensures
        r == cursor_spec(latest, now),
{
    match latest {
        Some(t) => t + MINUTE_SECS,
        None => now - RETENTION_SECS,
    }
}

/// The instant before which stored candles are purged.
pub fn retention_cutoff(now: i64) -> (r: i64)
    requires
        valid_epoch(now as int),
    ensures
        r == cutoff_spec(now),
{
    now - RETENTION_SECS
}

/// Relies on chrono::Utc::now and DateTime::timestamp: the current time in
/// whole seconds; chrono panics rather than return an instant before the epoch.
#[verifier::external_body]
fn clock_seconds() -> (r: i64)
    ensures
        r >= 0,
{
    chrono::Utc::now().timestamp()
}

/// The current time in seconds since the epoch, when it lies in the range a
/// candle may carry.
pub fn now_epoch() -> (r: Option<i64>)
    ensures
        r matches Some(t) ==> valid_epoch(t as int),
{
    epoch_if_valid(clock_seconds())
}

/// `t` when it lies in the range a candle may carry.
pub fn epoch_if_valid(t: i64) -> (r: Option<i64>)
    ensures
        r == (if valid_epoch(t as int) { Some(t) } else { None::<i64> }),
{
    if 0 <= t && t <= MAX_EPOCH {
        Some(t)
    } else {
        None
    }
}

} // verus!
