use vstd::prelude::*;
use crate::error::{CycleError, SourceError, StoreError};
use crate::ohlc::{PairData, all_rows_decode, decode_candles, kept_candles};
use crate::store::{MemoryPriceStore, batch_fits, latest_spec, retained};
use crate::time::{RETENTION_SECS, cursor_spec, cutoff_spec, valid_epoch};
use crate::types::Price;

verus! {

/// Where one ingestion cycle stands.
#[derive(Clone, Copy, Debug, PartialEq, Eq, Structural)]
pub enum CycleState {
    Idle,
    AwaitCursor,
    AwaitFetch,
    AwaitInsert,
    Finished,
}

/// What the outside world reports back to the cycle.
#[derive(Debug)]
pub enum CycleEvent {
    Start,
    CursorRead(Result<i64, StoreError>),
    Fetched(Result<Vec<Price>, SourceError>),
    Inserted(Result<(), StoreError>),
}

/// What the cycle asks the outside world to do next.
#[derive(Debug)]
pub enum CycleAction {
    ReadCursor,
    Fetch(i64),
    Insert(Vec<Price>),
    Finish(Result<(), CycleError>),
}

/// The events that each state waits for.
pub open spec fn event_fits(state: CycleState, event: CycleEvent) -> bool {
    match state {
        CycleState::Idle => event is Start,
        CycleState::AwaitCursor => event is CursorRead,
        CycleState::AwaitFetch => event is Fetched,
        CycleState::AwaitInsert => event is Inserted,
        CycleState::Finished => false,
    }
}

/// One transition: read the cursor, fetch from it, insert what came unless
/// nothing did, and stop at the first failure.
pub open spec fn step_spec(state: CycleState, event: CycleEvent) -> (CycleState, CycleAction) {
    match event {
        CycleEvent::Start => (CycleState::AwaitCursor, CycleAction::ReadCursor),
        CycleEvent::CursorRead(Ok(c)) => (CycleState::AwaitFetch, CycleAction::Fetch(c)),
        CycleEvent::CursorRead(Err(e)) => (CycleState::Finished, CycleAction::Finish(Err(CycleError::Store(e)))),
        CycleEvent::Fetched(Ok(v)) => if v@.len() == 0 {
            (CycleState::Finished, CycleAction::Finish(Ok(())))
        } else {
            (CycleState::AwaitInsert, CycleAction::Insert(v))
        },
        CycleEvent::Fetched(Err(e)) => (CycleState::Finished, CycleAction::Finish(Err(CycleError::Source(e)))),
        CycleEvent::Inserted(Ok(())) => (CycleState::Finished, CycleAction::Finish(Ok(()))),
        CycleEvent::Inserted(Err(e)) => (CycleState::Finished, CycleAction::Finish(Err(CycleError::Store(e)))),
    }
}

/// Advances a cycle by one event.
pub fn cycle_step(state: CycleState, event: CycleEvent) -> (r: (CycleState, CycleAction))
    requires
        event_fits(state, event),
    ensures
        r == step_spec(state, event),
        event matches CycleEvent::Fetched(Ok(v)) && v@.len() == 0 ==> !(r.1 is Insert),
{
    match event {
        CycleEvent::Start => (CycleState::AwaitCursor, CycleAction::ReadCursor),
        CycleEvent::CursorRead(Ok(c)) => (CycleState::AwaitFetch, CycleAction::Fetch(c)),
        CycleEvent::CursorRead(Err(e)) => (CycleState::Finished, CycleAction::Finish(Err(CycleError::Store(e)))),
        CycleEvent::Fetched(Ok(v)) => {
            if v.len() == 0 {
                (CycleState::Finished, CycleAction::Finish(Ok(())))
            } else {
                (CycleState::AwaitInsert, CycleAction::Insert(v))
            }
        },
        CycleEvent::Fetched(Err(e)) => (CycleState::Finished, CycleAction::Finish(Err(CycleError::Source(e)))),
        CycleEvent::Inserted(Ok(())) => (CycleState::Finished, CycleAction::Finish(Ok(()))),
        CycleEvent::Inserted(Err(e)) => (CycleState::Finished, CycleAction::Finish(Err(CycleError::Store(e)))),
    }
}

/// A price source that answers every fetch from one upstream payload.
pub struct MemoryPriceSource {
    pub data: PairData,
}

impl MemoryPriceSource {
    /// The candles of the payload that open at or after `since`.
    pub fn fetch(&self, since: i64) -> (r: Result<Vec<Price>, SourceError>)
        ensures
            r is Ok <==> fetch_ok(self.data),
            r matches Ok(v) ==> v@ == fetched(self.data, since as int),
            r matches Ok(v) ==> forall|k: int| 0 <= k < v@.len() ==> (#[trigger] v@[k]).timestamp >= since,
    {
        decode_candles(&self.data, since)
    }
}

/// Whether every candle of the payload decodes.
pub open spec fn fetch_ok(data: PairData) -> bool {
    data matches PairData::Rows(rows) && all_rows_decode(rows@)
}

/// The candles that a fetch from `since` hands back, when it succeeds.
pub open spec fn fetched(data: PairData, since: int) -> Seq<Price> {
    match data {
        PairData::Rows(rows) => kept_candles(rows@, since),
        _ => Seq::empty(),
    }
}

/// Runs one cycle against an in-memory store and source at time `now`.
pub fn run_cycle(store: &mut MemoryPriceStore, source: &MemoryPriceSource, now: i64) -> (r: Result<(), CycleError>)
    requires
        old(store).wf(),
        valid_epoch(now as int),
    ensures
        final(store).wf(),
        ({
            let cursor = cursor_spec(latest_spec(old(store)@), now);
            let v = fetched(source.data, cursor);
            let base = retained(old(store)@, cutoff_spec(now));
            &&& (!fetch_ok(source.data) ==> (r matches Err(CycleError::Source(_))) && final(store)@ == old(store)@)
            &&& (fetch_ok(source.data) && v.len() == 0 ==> r is Ok && final(store)@ == old(store)@)
            &&& (fetch_ok(source.data) && v.len() > 0 && batch_fits(base, retained(v, cutoff_spec(now))) ==> r is Ok && final(store)@ == retained(old(store)@ + v, cutoff_spec(now)))
            &&& (fetch_ok(source.data) && v.len() > 0 && !batch_fits(base, retained(v, cutoff_spec(now))) ==> r == Err::<(), CycleError>(
                CycleError::Store(StoreError::Write)) && final(store)@ == base)
            &&& (fetch_ok(source.data) && v.len() > 0 ==> forall|j: int| 0 <= j < final(store)@.len()
                ==> (#[trigger] final(store)@[j]).timestamp >= cutoff_spec(now))
        }),
{
    let (state, action) = cycle_step(CycleState::Idle, CycleEvent::Start);
    let cursor = store.get_cursor(now);
    let (state, action) = cycle_step(state, CycleEvent::CursorRead(Ok(cursor)));
    let since = match action {
        CycleAction::Fetch(c) => c,
        _ => {
            assert(false);
            return Ok(());
        },
    };
    let records = source.fetch(since);
    let (state, action) = cycle_step(state, CycleEvent::Fetched(records));
    let batch = match action {
        CycleAction::Finish(res) => {
            return res;
        },
        CycleAction::Insert(v) => v,
        _ => {
            assert(false);
            return Ok(());
        },
    };
    let inserted = store.insert_many(batch, now);
    let (_state, action) = cycle_step(state, CycleEvent::Inserted(inserted));
    match action {
        CycleAction::Finish(res) => res,
        _ => {
            assert(false);
            Ok(())
        },
    }
}

} // verus!

verus! {

/// A fetch that hands back no candles ends the cycle successfully, and the
/// cycle never asks for an insert.
pub proof fn lemma_empty_fetch_skips_insert(v: Vec<Price>)
    requires
        v@.len() == 0,
    ensures
        step_spec(CycleState::AwaitFetch, CycleEvent::Fetched(Ok(v))).0 == CycleState::Finished,
        step_spec(CycleState::AwaitFetch, CycleEvent::Fetched(Ok(v))).1 matches CycleAction::Finish(Ok(())),
{
}

} // verus!

verus! {

/// On an empty store the cycle fetches from thirty days before `now`; when
/// upstream has no candles from there, the cycle succeeds and writes nothing.
pub proof fn lemma_empty_store_cycle(store: Seq<Price>, data: PairData, now: i64)
    requires
        store.len() == 0,
        fetch_ok(data),
        fetched(data, now - RETENTION_SECS).len() == 0,
    ensures
        cursor_spec(latest_spec(store), now) == now - RETENTION_SECS,
        fetched(data, cursor_spec(latest_spec(store), now)).len() == 0,
{
}

} // verus!
