use vstd::prelude::*;

verus! {

broadcast use vstd::seq_lib::group_seq_properties;

/// The decision `get` takes for an address.
#[derive(Debug, Clone, Copy, PartialEq, Eq, Structural)]
pub enum CacheLookup {
    /// A live entry exists: hand its handle out at once.
    Hit,
    /// No live entry: populate once and retry the lookup.
    MissPopulate,
}

/// The policy of the peripheral cache: which addresses hold a live handle
/// (the handles themselves live with the runtime), when each entry expires,
/// and when a repopulation is due. Times are epoch milliseconds.
#[derive(Debug)]
pub struct PeripheralCacheState {
    pub entries: Vec<(u64, u64)>,
    pub last_populate: Option<u64>,
    pub ttl_ms: u64,
}

impl PeripheralCacheState {
    /// One entry per address.
    pub open spec fn wf(self) -> bool {
        forall|i: int, j: int|
            0 <= i < j < self.entries@.len() ==> (#[trigger] self.entries@[i]).0 != (
            #[trigger] self.entries@[j]).0
    }

    /// Whether an unexpired entry exists for the address.
    pub open spec fn spec_live(self, address: u64, now: u64) -> bool {
        exists|i: int|
            0 <= i < self.entries@.len() && (#[trigger] self.entries@[i]).0 == address
                && now < self.entries@[i].1
    }

    pub fn new(ttl_ms: u64) -> (r: Self)
        ensures
            r.entries@.len() == 0,
            r.last_populate is None,
            r.ttl_ms == ttl_ms,
            r.wf(),
    {
        PeripheralCacheState { entries: Vec::new(), last_populate: None, ttl_ms }
    }

    /// How a lookup proceeds: a hit returns the cached handle immediately,
    /// a miss triggers a single populate and one retry.
    pub fn lookup(&self, address: u64, now: u64) -> (r: CacheLookup)
        ensures
            r == CacheLookup::Hit <==> self.spec_live(address, now),
    {
        let mut i: usize = 0;
        while i < self.entries.len()
            invariant
                i <= self.entries@.len(),
                forall|j: int|
                    0 <= j < i ==> !((#[trigger] self.entries@[j]).0 == address && now
                        < self.entries@[j].1),
            decreases self.entries@.len() - i,
        {
            if self.entries[i].0 == address && now < self.entries[i].1 {
                return CacheLookup::Hit;
            }
            i = i + 1;
        }
        CacheLookup::MissPopulate
    }

    /// Whether `populate` would do work now: it is a no-op while the last
    /// successful populate is younger than the TTL.
    pub fn populate_due(&self, now: u64) -> (r: bool)
        ensures
            r == match self.last_populate {
                Some(t) => now < t || now - t >= self.ttl_ms,
                None => true,
            },
    {
        match self.last_populate {
            Some(t) => now < t || now - t >= self.ttl_ms,
            None => true,
        }
    }

    /// Records a finished repopulation.
    pub fn mark_populated(&mut self, now: u64)
        ensures
            final(self).last_populate == Some(now),
            final(self).entries == old(self).entries,
            final(self).ttl_ms == old(self).ttl_ms,
    {
        self.last_populate = Some(now);
    }

    /// Stores one discovered handle's address with a fresh TTL, replacing
    /// any older entry for it; the deadline saturates at the clock's range.
    #[verifier::loop_isolation(false)]
    pub fn insert(&mut self, address: u64, now: u64)
        requires
            old(self).wf(),
        ensures
            final(self).wf(),
            final(self).ttl_ms == old(self).ttl_ms,
            final(self).last_populate == old(self).last_populate,
            exists|i: int|
                0 <= i < final(self).entries@.len() && (#[trigger] final(self).entries@[i]).0
                    == address && final(self).entries@[i].1 == (if now + old(self).ttl_ms
                    <= u64::MAX {
                    (now + old(self).ttl_ms) as u64
                } else {
                    u64::MAX
                }),
            forall|i: int|
                0 <= i < final(self).entries@.len() && (#[trigger] final(self).entries@[i]).0
                    != address ==> old(self).entries@.contains(final(self).entries@[i]),
    {
        let deadline: u64 = if now <= u64::MAX - self.ttl_ms {
            now + self.ttl_ms
        } else {
            u64::MAX
        };
        let ghost mid = *self;
        let mut i: usize = 0;
        while i < self.entries.len()
            invariant
                i <= self.entries@.len(),
                *self == mid,
                forall|j: int| 0 <= j < i ==> (#[trigger] self.entries@[j]).0 != address,
            decreases self.entries@.len() - i,
        {
            if self.entries[i].0 == address {
                let updated = (address, deadline);
                let ghost pre = self.entries@;
                let _ = self.entries.remove(i);
                self.entries.insert(i, updated);
                proof {
                    assert(self.entries@ =~= pre.update(i as int, updated));
                    assert(self.entries@[i as int] == updated);
                }
                return ;
            }
            i = i + 1;
        }
        self.entries.push((address, deadline));
        proof {
            assert(self.entries@[self.entries@.len() - 1] == (address, deadline));
        }
    }

    /// The sweeper's pass: drops exactly the expired entries.
    #[verifier::loop_isolation(false)]
    pub fn evict_expired(&mut self, now: u64)
        requires
            old(self).wf(),
        ensures
            final(self).wf(),
            final(self).ttl_ms == old(self).ttl_ms,
            final(self).last_populate == old(self).last_populate,
            forall|i: int|
                0 <= i < final(self).entries@.len() ==> now < (
                #[trigger] final(self).entries@[i]).1 && old(self).entries@.contains(
                    final(self).entries@[i],
                ),
            forall|i: int|
                0 <= i < old(self).entries@.len() && now < (#[trigger] old(self).entries@[i]).1
                    ==> final(self).entries@.contains(old(self).entries@[i]),
    {
        let mut kept: Vec<(u64, u64)> = Vec::new();
        let mut i: usize = 0;
        while i < self.entries.len()
            invariant
                i <= self.entries@.len(),
                forall|k: int|
                    0 <= k < kept@.len() ==> now < (#[trigger] kept@[k]).1
                        && self.entries@.take(i as int).contains(kept@[k]),
                forall|j: int|
                    0 <= j < i ==> (now < (#[trigger] self.entries@[j]).1 ==> kept@.contains(
                        self.entries@[j],
                    )),
                forall|a: int, b: int|
                    0 <= a < b < kept@.len() ==> (#[trigger] kept@[a]).0 != (
                    #[trigger] kept@[b]).0,
            decreases self.entries@.len() - i,
        {
            let entry = self.entries[i];
            if now < entry.1 {
                proof {
                    assert forall|a: int| 0 <= a < kept@.len() implies (#[trigger] kept@[a]).0
                        != entry.0 by {
                        let j = choose|j: int|
                            0 <= j < i && self.entries@.take(i as int)[j] == kept@[a];
                        assert(self.entries@[j] == kept@[a]);
                    }
                    assert(self.entries@.take(i + 1).contains(self.entries@[i as int]));
                }
                kept.push(entry);
            }
            proof {
                assert forall|k: int| 0 <= k < kept@.len() implies now < (
                #[trigger] kept@[k]).1 && self.entries@.take(i + 1).contains(kept@[k]) by {
                    if self.entries@.take(i as int).contains(kept@[k]) {
                        let j = choose|j: int|
                            0 <= j < i && self.entries@.take(i as int)[j] == kept@[k];
                        assert(self.entries@.take(i + 1)[j] == kept@[k]);
                    }
                }
            }
            i = i + 1;
        }
        proof {
            assert(self.entries@.take(self.entries@.len() as int) =~= self.entries@);
        }
        self.entries = kept;
    }
}

} // verus!
