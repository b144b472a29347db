use vstd::prelude::*;

verus! {

/// A one-time barrier: waiters may proceed only once `count` permits have
/// been released by `countdown` calls. Not resettable.
#[derive(Debug, Clone, Copy, PartialEq, Eq, Structural)]
pub struct CountDownLatch {
    pub count: u32,
    pub permits: u32,
}

impl CountDownLatch {
    pub fn new(count: u32) -> (r: Self)
        ensures
            r.count == count,
            r.permits == 0,
    {
        CountDownLatch { count, permits: 0 }
    }

    /// Releases one permit. A latch receives one countdown per counted
    /// party, so the permits never reach the counter's range limit.
    pub fn countdown(&mut self)
        requires
            old(self).permits < u32::MAX,
        ensures
            final(self).count == old(self).count,
            final(self).permits == old(self).permits + 1,
    {
        self.permits = self.permits + 1;
    }

    /// Whether a waiter may proceed: every counted party has arrived.
    pub fn ready(&self) -> (r: bool)
        ensures
            r == (self.permits >= self.count),
    {
        self.permits >= self.count
    }
}

} // verus!
