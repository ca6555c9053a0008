use vstd::prelude::*;
use crate::error::StoreError;
use crate::time::{MAX_EPOCH, cursor_spec, cutoff_spec, next_cursor, retention_cutoff, valid_epoch};
use crate::types::Price;

verus! {

/// Timestamps strictly ascending and each a valid instant: keys are unique.
pub open spec fn ordered_keys(s: Seq<Price>) -> bool {
    &&& forall|i: int| 0 <= i < s.len() ==> valid_epoch((#[trigger] s[i]).timestamp as int)
    &&& forall|i: int, j: int| 0 <= i < j < s.len() ==> (#[trigger] s[i]).timestamp < (#[trigger] s[j]).timestamp
}

/// The latest stored timestamp.
pub open spec fn latest_spec(s: Seq<Price>) -> Option<i64> {
    if s.len() == 0 {
        None
    } else {
        Some(s.last().timestamp)
    }
}

/// The records that a purge at `cutoff` keeps, in order.
pub open spec fn retained(s: Seq<Price>, cutoff: int) -> Seq<Price>
    decreases s.len(),
{
    if s.len() == 0 {
        Seq::empty()
    } else if s.last().timestamp >= cutoff {
        retained(s.drop_last(), cutoff).push(s.last())
    } else {
        retained(s.drop_last(), cutoff)
    }
}

/// The stored record with key `ts`, if any.
pub open spec fn find_spec(s: Seq<Price>, ts: i64) -> Option<Price> {
    if exists|i: int| 0 <= i < s.len() && (#[trigger] s[i]).timestamp == ts {
        Some(s[choose|i: int| 0 <= i < s.len() && (#[trigger] s[i]).timestamp == ts])
    } else {
        None
    }
}

/// Whether `prices` may follow `base` in a store: ascending after its end.
pub open spec fn batch_fits(base: Seq<Price>, prices: Seq<Price>) -> bool {
    &&& ordered_keys(prices)
    &&& (base.len() > 0 && prices.len() > 0 ==> base.last().timestamp < prices[0].timestamp)
}

/// A price store held in memory, ordered by timestamp.
pub struct MemoryPriceStore {
    records: Vec<Price>,
}

impl View for MemoryPriceStore {
    type V = Seq<Price>;

    closed spec fn view(&self) -> Seq<Price> {
        self.records@
    }
}

proof fn lemma_retained_bounds(s: Seq<Price>, cutoff: int)
    ensures
        forall|k: int| 0 <= k < retained(s, cutoff).len() ==> (#[trigger] retained(s, cutoff)[k]).timestamp >= cutoff && s.contains(retained(s, cutoff)[k]),
    decreases s.len(),
{
    if s.len() > 0 {
        lemma_retained_bounds(s.drop_last(), cutoff);
        let r = retained(s.drop_last(), cutoff);
        assert forall|k: int| 0 <= k < retained(s, cutoff).len() implies (#[trigger] retained(s, cutoff)[k]).timestamp >= cutoff && s.contains(retained(s, cutoff)[k]) by {
            if k < r.len() {
                let j = choose|j: int| 0 <= j < s.drop_last().len() && s.drop_last()[j] == r[k];
                assert(s[j] == r[k]);
            } else {
                assert(s[s.len() - 1] == s.last());
            }
        }
    }
}

/// The records of `prices` at or after `cutoff`, in order.
pub fn retain_fresh(prices: &Vec<Price>, cutoff: i64) -> (r: Vec<Price>)
    ensures
        r@ == retained(prices@, cutoff as int),
{
    let mut fresh: Vec<Price> = Vec::new();
    let mut m: usize = 0;
    while m < prices.len()
        invariant
            0 <= m <= prices@.len(),
            fresh@ == retained(prices@.take(m as int), cutoff as int),
        decreases prices@.len() - m,
    {
        assert(prices@.take(m as int + 1).drop_last() =~= prices@.take(m as int));
        if prices[m].timestamp >= cutoff {
            fresh.push(prices[m]);
        }
        m = m + 1;
    }
    assert(prices@.take(prices@.len() as int) =~= prices@);
    fresh
}

impl MemoryPriceStore {
    pub open spec fn wf(&self) -> bool {
        ordered_keys(self@)
    }

    /// An empty store.
    pub fn new() -> (r: Self)
        ensures
            r@ == Seq::<Price>::empty(),
            r.wf(),
    {
        MemoryPriceStore { records: Vec::new() }
    }

    /// The stored records, oldest first.
    pub fn records(&self) -> (r: &Vec<Price>)
        ensures
            r@ == self@,
    {
        &self.records
    }

    /// The timestamp of the most recent record.
    pub fn latest_timestamp(&self) -> (r: Option<i64>)
        ensures
            r == latest_spec(self@),
    {
        let n = self.records.len();
        if n == 0 {
            None
        } else {
            Some(self.records[n - 1].timestamp)
        }
    }

    /// Where the next fetch starts: one minute after the latest record, or
    /// thirty days before `now` when the store is empty.
    pub fn get_cursor(&self, now: i64) -> (r: i64)
        requires
            self.wf(),
            valid_epoch(now as int),
        ensures
            r == cursor_spec(latest_spec(self@), now),
    {
        let latest = self.latest_timestamp();
        proof {
            if self@.len() > 0 {
                assert(valid_epoch(self@[self@.len() - 1].timestamp as int));
            }
        }
        next_cursor(latest, now)
    }

    /// The record stored under `ts`.
    pub fn find(&self, ts: i64) -> (r: Option<Price>)
        requires
            self.wf(),
        ensures
            r == find_spec(self@, ts),
    {
        let mut i: usize = 0;
        while i < self.records.len()
            invariant
                0 <= i <= self@.len(),
                self.wf(),
                forall|j: int| 0 <= j < i ==> (#[trigger] self@[j]).timestamp != ts,
            decreases self@.len() - i,
        {
            if self.records[i].timestamp == ts {
                proof {
                    assert(self@[i as int].timestamp == ts);
                    let w = choose|j: int| 0 <= j < self@.len() && (#[trigger] self@[j]).timestamp == ts;
                    if w < i {
                        assert(self@[w].timestamp < self@[i as int].timestamp);
                    } else if w > i {
                        assert(self@[i as int].timestamp < self@[w].timestamp);
                    }
                }
                return Some(self.records[i]);
            }
            i = i + 1;
        }
        None
    }

    /// Deletes every record strictly older than `cutoff`.
    fn purge(&mut self, cutoff: i64)
        requires
            old(self).wf(),
        ensures
            final(self)@ == retained(old(self)@, cutoff as int),
            final(self).wf(),
    {
        let mut kept: Vec<Price> = Vec::new();
        let mut i: usize = 0;
        let ghost s = self@;
        while i < self.records.len()
            invariant
                s == self@,
                ordered_keys(s),
                0 <= i <= s.len(),
                kept@ == retained(s.take(i as int), cutoff as int),
                ordered_keys(kept@),
                forall|k: int, j: int| 0 <= k < kept@.len() && i <= j < s.len() ==> (#[trigger] kept@[k]).timestamp < (#[trigger] s[j]).timestamp,
            decreases s.len() - i,
        {
            let p = self.records[i];
            assert(s.take(i as int + 1).drop_last() =~= s.take(i as int));
            if p.timestamp >= cutoff {
                kept.push(p);
            }
            i = i + 1;
        }
        assert(s.take(s.len() as int) =~= s);
        self.records = kept;
    }

    /// Appends `prices` and purges every record, old or new, strictly older
    /// than thirty days before `now`. An empty batch leaves the store
    /// untouched. A batch whose retained keys do not ascend after the
    /// retained records is refused with `StoreError::Write`, after the purge.
    pub fn insert_many(&mut self, prices: Vec<Price>, now: i64) -> (r: Result<(), StoreError>)
        requires
            old(self).wf(),
            valid_epoch(now as int),
        ensures
            final(self).wf(),
            prices@.len() == 0 ==> r is Ok && final(self)@ == old(self)@,
            prices@.len() > 0 ==> {
                let base = retained(old(self)@, cutoff_spec(now));
                let fresh = retained(prices@, cutoff_spec(now));
                &&& (r is Ok <==> batch_fits(base, fresh))
                &&& (r is Ok ==> final(self)@ == retained(old(self)@ + prices@, cutoff_spec(now)))
                &&& (r is Err ==> r == Err::<(), StoreError>(StoreError::Write) && final(self)@ == base)
                &&& forall|j: int| 0 <= j < final(self)@.len() ==> (#[trigger] final(self)@[j]).timestamp >= cutoff_spec(now)
            },
    {
        if prices.len() == 0 {
            return Ok(());
        }
        let cutoff = retention_cutoff(now);
        self.purge(cutoff);
        proof {
            lemma_retained_bounds(old(self)@, cutoff as int);
            lemma_retained_bounds(prices@, cutoff as int);
            lemma_retained_concat(old(self)@, prices@, cutoff as int);
        }
        let fresh = retain_fresh(&prices, cutoff);
        let n = self.records.len();
        let mut i: usize = 0;
        while i < fresh.len()
            invariant
                0 <= i <= fresh@.len(),
                fresh@ == retained(prices@, cutoff as int),
                self.wf(),
                self@ == retained(old(self)@, cutoff as int),
                cutoff as int == cutoff_spec(now),
                forall|k: int| 0 <= k < self@.len() ==> (#[trigger] self@[k]).timestamp >= cutoff,
                n == self@.len(),
                forall|k: int| 0 <= k < i ==> valid_epoch((#[trigger] fresh@[k]).timestamp as int),
                forall|k: int, j: int| 0 <= k < j < i ==> (#[trigger] fresh@[k]).timestamp < (#[trigger] fresh@[j]).timestamp,
                i > 0 && n > 0 ==> self@.last().timestamp < fresh@[0].timestamp,
            decreases fresh@.len() - i,
        {
            let t = fresh[i].timestamp;
            if t < 0 || t > MAX_EPOCH {
                assert(!valid_epoch(fresh@[i as int].timestamp as int));
                return Err(StoreError::Write);
            }
            if i == 0 {
                if n > 0 && self.records[n - 1].timestamp >= t {
                    return Err(StoreError::Write);
                }
            } else if fresh[i - 1].timestamp >= t {
                assert(fresh@[i - 1].timestamp >= fresh@[i as int].timestamp);
                return Err(StoreError::Write);
            }
            i = i + 1;
        }
        let ghost base = self@;
        let mut j: usize = 0;
        while j < fresh.len()
            invariant
                0 <= j <= fresh@.len(),
                self@ == base + fresh@.take(j as int),
                forall|k: int| 0 <= k < base.len() ==> (#[trigger] base[k]).timestamp >= cutoff,
                forall|k: int| 0 <= k < fresh@.len() ==> (#[trigger] fresh@[k]).timestamp >= cutoff,
            decreases fresh@.len() - j,
        {
            self.records.push(fresh[j]);
            assert(base + fresh@.take(j as int + 1) =~= (base + fresh@.take(j as int)).push(fresh@[j as int]));
            j = j + 1;
        }
        assert(fresh@.take(fresh@.len() as int) =~= fresh@);
        Ok(())
    }
}

} // verus!

verus! {

/// A purge of two sequences one after the other is the purge of each,
/// one after the other.
proof fn lemma_retained_concat(a: Seq<Price>, b: Seq<Price>, cutoff: int)
    ensures
        retained(a + b, cutoff) == retained(a, cutoff) + retained(b, cutoff),
    decreases b.len(),
{
    if b.len() == 0 {
        assert(a + b =~= a);
        assert(retained(a, cutoff) + retained(b, cutoff) =~= retained(a, cutoff));
    } else {
        lemma_retained_concat(a, b.drop_last(), cutoff);
        assert((a + b).drop_last() =~= a + b.drop_last());
        assert((a + b).last() == b.last());
        if b.last().timestamp >= cutoff {
            assert(retained(a, cutoff) + retained(b.drop_last(), cutoff).push(b.last())
                =~= (retained(a, cutoff) + retained(b.drop_last(), cutoff)).push(b.last()));
        }
    }
}

/// A record at or after the cutoff survives the purge.
proof fn lemma_retained_keeps(s: Seq<Price>, cutoff: int, k: int)
    requires
        0 <= k < s.len(),
        s[k].timestamp >= cutoff,
    ensures
        retained(s, cutoff).contains(s[k]),
    decreases s.len(),
{
    let r = retained(s, cutoff);
    if k == s.len() - 1 {
        assert(r[r.len() - 1] == s[k]);
    } else {
        lemma_retained_keeps(s.drop_last(), cutoff, k);
        let p = retained(s.drop_last(), cutoff);
        let j = choose|j: int| 0 <= j < p.len() && p[j] == s[k];
        if s.last().timestamp >= cutoff {
            assert(r[j] == p[j]);
        }
    }
}

/// Every record of a batch that `insert_many` accepted, unless it was
/// already outside the retention window, reads back unchanged under its
/// timestamp.
pub proof fn lemma_round_trip(before: Seq<Price>, prices: Seq<Price>, after: Seq<Price>, now: i64, k: int)
    requires
        ordered_keys(before),
        batch_fits(retained(before, cutoff_spec(now)), retained(prices, cutoff_spec(now))),
        after == retained(before + prices, cutoff_spec(now)),
        ordered_keys(after),
        0 <= k < prices.len(),
        prices[k].timestamp >= cutoff_spec(now),
    ensures
        find_spec(after, prices[k].timestamp) == Some(prices[k]),
{
    let c = cutoff_spec(now);
    lemma_retained_concat(before, prices, c);
    lemma_retained_keeps(prices, c, k);
    let base = retained(before, c);
    let fresh = retained(prices, c);
    let j = choose|j: int| 0 <= j < fresh.len() && fresh[j] == prices[k];
    let i = base.len() + j;
    assert(after[i] == prices[k]);
    let w = choose|w: int| 0 <= w < after.len() && (#[trigger] after[w]).timestamp == prices[k].timestamp;
    if w < i {
        assert(after[w].timestamp < after[i].timestamp);
    } else if w > i {
        assert(after[i].timestamp < after[w].timestamp);
    }
}

} // verus!
