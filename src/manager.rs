use vstd::prelude::*;
use crate::cycle::{MemoryPriceSource, fetch_ok, fetched, run_cycle};
use crate::error::{CycleError, StoreError};
use crate::store::{MemoryPriceStore, batch_fits, latest_spec, retained};
use crate::time::{cursor_spec, cutoff_spec, valid_epoch};

verus! {

/// Something that brings stored prices up to date, one cycle per call.
pub trait PriceManager {
    spec fn inv(&self) -> bool;

    fn update_price_data(&mut self, now: i64) -> (r: Result<(), CycleError>)
        requires
            old(self).inv(),
            valid_epoch(now as int),
        ensures
            final(self).inv(),
    ;
}

/// A price manager over an in-memory store and source.
pub struct MemoryPriceManager {
    pub store: MemoryPriceStore,
    pub source: MemoryPriceSource,
}

impl PriceManager for MemoryPriceManager {
    open spec fn inv(&self) -> bool {
        self.store.wf()
    }

    fn update_price_data(&mut self, now: i64) -> (r: Result<(), CycleError>)
        ensures
            final(self).source == old(self).source,
            ({
                let cursor = cursor_spec(latest_spec(old(self).store@), now);
                let v = fetched(old(self).source.data, cursor);
                let base = retained(old(self).store@, cutoff_spec(now));
                &&& (!fetch_ok(old(self).source.data) ==> (r matches Err(CycleError::Source(_))) && final(self).store@ == old(self).store@)
                &&& (fetch_ok(old(self).source.data) && v.len() == 0 ==> r is Ok && final(self).store@ == old(self).store@)
                &&& (fetch_ok(old(self).source.data) && v.len() > 0 && batch_fits(base, retained(v, cutoff_spec(now))) ==> r is Ok && final(self).store@ == retained(old(self).store@ + v, cutoff_spec(now)))
                &&& (fetch_ok(old(self).source.data) && v.len() > 0 && !batch_fits(base, retained(v, cutoff_spec(now))) ==> r == Err::<(), CycleError>(
                    CycleError::Store(StoreError::Write)) && final(self).store@ == base)
            }),
    {
        run_cycle(&mut self.store, &self.source, now)
    }
}

} // verus!
