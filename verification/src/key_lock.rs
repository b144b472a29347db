use vstd::prelude::*;

verus! {

broadcast use vstd::seq_lib::group_seq_properties;

/// One key's lock: whether it is held, and how many acquirers wait.
#[derive(Debug, Clone, Copy, PartialEq, Eq, Structural)]
pub struct LockEntry {
    pub held: bool,
    pub waiters: u64,
}

/// Per-key mutual exclusion with eviction on last release: the map's
/// working-set size tracks active contention, not cumulative key space.
/// Keys are peripheral addresses: the lock serializes `connect` calls.
#[derive(Debug)]
pub struct KeyLock {
    pub entries: Vec<(u64, LockEntry)>,
}

impl KeyLock {
    /// One entry per key, every entry either held or awaited.
    pub open spec fn wf(self) -> bool {
        (forall|i: int, j: int|
            0 <= i < j < self.entries@.len() ==> (#[trigger] self.entries@[i]).0 != (
            #[trigger] self.entries@[j]).0) && (forall|i: int|
            0 <= i < self.entries@.len() ==> (#[trigger] self.entries@[i]).1.held)
    }

    /// Whether someone currently holds the key.
    pub open spec fn spec_held(self, key: u64) -> bool {
        exists|i: int|
            0 <= i < self.entries@.len() && (#[trigger] self.entries@[i]).0 == key
                && self.entries@[i].1.held
    }

    pub fn new() -> (r: Self)
        ensures
            r.entries@.len() == 0,
            r.wf(),
    {
        KeyLock { entries: Vec::new() }
    }

    fn find(&self, key: u64) -> (r: Option<usize>)
        ensures
            r matches Some(i) ==> i < self.entries@.len() && self.entries@[i as int].0 == key,
            r is None ==> forall|j: int|
                0 <= j < self.entries@.len() ==> (#[trigger] self.entries@[j]).0 != key,
    {
        let mut i: usize = 0;
        while i < self.entries.len()
            invariant
                i <= self.entries@.len(),
                forall|j: int| 0 <= j < i ==> (#[trigger] self.entries@[j]).0 != key,
            decreases self.entries@.len() - i,
        {
            if self.entries[i].0 == key {
                return Some(i);
            }
            i = i + 1;
        }
        None
    }

    /// Tries to take the key's lock. Granted exactly when nobody holds it;
    /// otherwise the caller is queued as a waiter. At most one acquirer per
    /// key is ever granted at a time.
    #[verifier::loop_isolation(false)]
    pub fn acquire(&mut self, key: u64) -> (granted: bool)
        requires
            old(self).wf(),
        ensures
            final(self).wf(),
            granted == !old(self).spec_held(key),
            final(self).spec_held(key),
            granted ==> final(self).entries@ == old(self).entries@.push(
                (key, LockEntry { held: true, waiters: 0 }),
            ),
            !granted ==> final(self).entries@.len() == old(self).entries@.len() && (exists|i: int|
                0 <= i < old(self).entries@.len() && (#[trigger] old(self).entries@[i]).0 == key
                    && final(self).entries@ == old(self).entries@.update(
                    i,
                    (
                        key,
                        LockEntry {
                            held: true,
                            waiters: if old(self).entries@[i].1.waiters < u64::MAX {
                                (old(self).entries@[i].1.waiters + 1) as u64
                            } else {
                                old(self).entries@[i].1.waiters
                            },
                        },
                    ),
                )),
    {
        match self.find(key) {
            Some(i) => {
                let entry = self.entries[i].1;
                proof {
                    assert(self.entries@[i as int].1.held);
                    assert(old(self).spec_held(key));
                }
                let new_waiters = if entry.waiters < u64::MAX {
                    entry.waiters + 1
                } else {
                    entry.waiters
                };
                let updated = (key, LockEntry { held: true, waiters: new_waiters });
                let ghost pre = self.entries@;
                let _ = self.entries.remove(i);
                self.entries.insert(i, updated);
                proof {
                    assert(self.entries@ =~= pre.update(i as int, updated));
                    assert(self.entries@[i as int] == updated);
                    assert(self.spec_held(key));
                }
                false
            },
            None => {
                self.entries.push((key, LockEntry { held: true, waiters: 0 }));
                proof {
                    assert(self.entries@[self.entries@.len() - 1] == (
                    key,
                    LockEntry { held: true, waiters: 0 },
                ));
                    assert(self.spec_held(key));
                }
                true
            },
        }
    }

    /// Releases the key. When another acquirer waits, the lock is handed
    /// over and stays held; when the last holder leaves, the entry is
    /// removed and the map shrinks.
    #[verifier::loop_isolation(false)]
    pub fn release(&mut self, key: u64)
        requires
            old(self).wf(),
            old(self).spec_held(key),
        ensures
            final(self).wf(),
            (exists|i: int|
                0 <= i < old(self).entries@.len() && (#[trigger] old(self).entries@[i]).0 == key
                    && (if old(self).entries@[i].1.waiters > 0 {
                    final(self).entries@ == old(self).entries@.update(
                        i,
                        (
                            key,
                            LockEntry {
                                held: true,
                                waiters: (old(self).entries@[i].1.waiters - 1) as u64,
                            },
                        ),
                    )
                } else {
                    final(self).entries@ == old(self).entries@.remove(i)
                })),
            old(self).entries@.len() == 1 && old(self).entries@[0].1.waiters == 0 ==> final(self).entries@.len() == 0,
    {
        match self.find(key) {
            Some(i) => {
                let entry = self.entries[i].1;
                if entry.waiters > 0 {
                    let updated = (key, LockEntry { held: true, waiters: entry.waiters - 1 });
                    let ghost pre = self.entries@;
                    let _ = self.entries.remove(i);
                    self.entries.insert(i, updated);
                    proof {
                        assert(self.entries@ =~= pre.update(i as int, updated));
                    }
                } else {
                    let _ = self.entries.remove(i);
                }
            },
            None => {
                proof {
                    assert(false);
                }
            },
        }
    }
}

/// The keyed lock prevents overlapping `connect` calls for one address: a
/// well-formed lock holds at most one entry per key, and `acquire` grants
/// the lock exactly when the key is not already held, so at most one
/// driver-level connect is ever in flight per address.
pub proof fn lemma_keyed_lock_exclusion(s: KeyLock, key: u64)
    requires
        s.wf(),
    ensures
        forall|i: int, j: int|
            0 <= i < j < s.entries@.len() && (#[trigger] s.entries@[i]).0 == key && (
            #[trigger] s.entries@[j]).0 == key ==> false,
{
}

} // verus!
