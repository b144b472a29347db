use vstd::prelude::*;

verus! {

broadcast use vstd::seq_lib::group_seq_properties;

use crate::model::PeripheralKey;

/// Whether two peripheral keys are the same, character for character.
pub open spec fn key_eq(a: PeripheralKey, b: PeripheralKey) -> bool {
    a.adapter_id@ == b.adapter_id@ && a.peripheral_address == b.peripheral_address && match (
        a.name,
        b.name,
    ) {
        (Some(x), Some(y)) => x@ == y@,
        (None, None) => true,
        _ => false,
    }
}

/// Whether the key was accepted at `ts` recently enough, seen at `now`, to
/// suppress a new event.
pub open spec fn within_window(ts: u64, now: u64, window_ms: u64) -> bool {
    now - ts < window_ms
}

/// Per-key time-window suppression. `throttle` answers whether an identical
/// key was accepted within the last window and, if not, records a fresh
/// timestamp. The caller passes the clock and its purge decision in, so the
/// records grow only between purges.
pub struct DebounceLimiter {
    pub entries: Vec<(PeripheralKey, u64)>,
    pub window_ms: u64,
}

impl DebounceLimiter {
    /// One record per key.
    pub open spec fn wf(self) -> bool {
        forall|i: int, j: int|
            0 <= i < j < self.entries@.len() ==> !key_eq(
                (#[trigger] self.entries@[i]).0,
                (#[trigger] self.entries@[j]).0,
            )
    }

    /// Every recorded timestamp lies in the past of `now`.
    pub open spec fn fresh_until(self, now: u64) -> bool {
        forall|i: int| 0 <= i < self.entries@.len() ==> (#[trigger] self.entries@[i]).1 <= now
    }

    pub open spec fn spec_has(self, key: PeripheralKey) -> bool {
        exists|i: int| 0 <= i < self.entries@.len() && key_eq((#[trigger] self.entries@[i]).0, key)
    }

    /// Whether the key's record, if any, still falls inside the window.
    pub open spec fn spec_throttled(self, key: PeripheralKey, now: u64) -> bool {
        exists|i: int|
            0 <= i < self.entries@.len() && key_eq((#[trigger] self.entries@[i]).0, key)
                && within_window(self.entries@[i].1, now, self.window_ms)
    }

    pub fn new(window_ms: u64) -> (r: Self)
        ensures
            r.window_ms == window_ms,
            r.entries@.len() == 0,
            r.wf(),
    {
        DebounceLimiter { entries: Vec::new(), window_ms }
    }

    /// Returns true exactly when an identical key was accepted within the
    /// last window, in which case nothing changes; otherwise the key's
    /// record is refreshed to `now` and the event passes. When `purge` is
    /// set (the caller's occasional coin toss), expired records are dropped
    /// first — best effort: a record still inside its window always
    /// survives, so the purge never changes what `throttle` answers.
    #[verifier::loop_isolation(false)]
    #[verifier::rlimit(80)]
    pub fn throttle(&mut self, key: &PeripheralKey, now_ms: u64, purge: bool) -> (r: bool)
        requires
            old(self).wf(),
            old(self).fresh_until(now_ms),
        ensures
            final(self).wf(),
            final(self).fresh_until(now_ms),
            final(self).window_ms == old(self).window_ms,
            r == old(self).spec_throttled(*key, now_ms),
            r ==> final(self).spec_throttled(*key, now_ms),
            !r ==> (exists|i: int|
                0 <= i < final(self).entries@.len() && key_eq(
                    (#[trigger] final(self).entries@[i]).0,
                    *key,
                ) && final(self).entries@[i].1 == now_ms),
            forall|i: int|
                0 <= i < final(self).entries@.len() && !key_eq(
                    (#[trigger] final(self).entries@[i]).0,
                    *key,
                ) ==> old(self).entries@.contains(final(self).entries@[i]),
            forall|i: int|
                0 <= i < old(self).entries@.len() && within_window(
                    (#[trigger] old(self).entries@[i]).1,
                    now_ms,
                    old(self).window_ms,
                ) ==> final(self).entries@.contains(old(self).entries@[i]),
    {
        if purge {
            let mut kept: Vec<(PeripheralKey, u64)> = Vec::new();
            let mut i: usize = 0;
            while i < self.entries.len()
                invariant
                    i <= self.entries@.len(),
                    forall|k: int|
                        0 <= k < kept@.len() ==> self.entries@.take(i as int).contains(
                            #[trigger] kept@[k],
                        ),
                    forall|j: int|
                        0 <= j < i ==> (within_window(
                            (#[trigger] self.entries@[j]).1,
                            now_ms,
                            self.window_ms,
                        ) ==> kept@.contains(self.entries@[j])),
                    forall|a: int, b: int|
                        0 <= a < b < kept@.len() ==> !key_eq(
                            (#[trigger] kept@[a]).0,
                            (#[trigger] kept@[b]).0,
                        ),
                decreases self.entries@.len() - i,
            {
                let entry = &self.entries[i];
                let elapsed = now_ms - entry.1;
                if elapsed < self.window_ms {
                    let copied = (entry.0.clone(), entry.1);
                    proof {
                        assert(copied == self.entries@[i as int]);
                        assert forall|a: int| 0 <= a < kept@.len() implies !key_eq(
                            (#[trigger] kept@[a]).0,
                            copied.0,
                        ) by {
                            let j = choose|j: int|
                                0 <= j < i && self.entries@.take(i as int)[j] == kept@[a];
                            assert(self.entries@[j] == kept@[a]);
                        }
                        assert(self.entries@.take(i + 1).contains(self.entries@[i as int]));
                    }
                    kept.push(copied);
                }
                proof {
                    assert forall|k: int| 0 <= k < kept@.len() implies self.entries@.take(
                        i + 1,
                    ).contains(#[trigger] kept@[k]) by {
                        if self.entries@.take(i as int).contains(kept@[k]) {
                            let j = choose|j: int|
                                0 <= j < i && self.entries@.take(i as int)[j] == kept@[k];
                            assert(self.entries@.take(i + 1)[j] == kept@[k]);
                        }
                    }
                }
                i = i + 1;
            }
            proof {
                assert(self.entries@.take(self.entries@.len() as int) =~= self.entries@);
                assert forall|j: int|
                    0 <= j < self.entries@.len() && key_eq(
                        (#[trigger] self.entries@[j]).0,
                        *key,
                    ) && within_window(self.entries@[j].1, now_ms, self.window_ms) implies
                    kept@.contains(self.entries@[j]) by {}
            }
            let ghost pre = self.entries@;
            self.entries = kept;
            proof {
                assert forall|k: int| 0 <= k < self.entries@.len() implies pre.contains(
                    #[trigger] self.entries@[k],
                ) by {}
                assert(old(self).spec_throttled(*key, now_ms) == self.spec_throttled(
                    *key,
                    now_ms,
                )) by {
                    if old(self).spec_throttled(*key, now_ms) {
                        let j = choose|j: int|
                            0 <= j < pre.len() && key_eq((#[trigger] pre[j]).0, *key)
                                && within_window(pre[j].1, now_ms, self.window_ms);
                        assert(self.entries@.contains(pre[j]));
                        let p = choose|p: int|
                            0 <= p < self.entries@.len() && self.entries@[p] == pre[j];
                        assert(key_eq(self.entries@[p].0, *key));
                    }
                    if self.spec_throttled(*key, now_ms) {
                        let p = choose|p: int|
                            0 <= p < self.entries@.len() && key_eq(
                                (#[trigger] self.entries@[p]).0,
                                *key,
                            ) && within_window(self.entries@[p].1, now_ms, self.window_ms);
                        assert(pre.contains(self.entries@[p]));
                        let j = choose|j: int| 0 <= j < pre.len() && pre[j] == self.entries@[p];
                        assert(key_eq(pre[j].0, *key));
                    }
                }
            }
        }
        let ghost mid = *self;
        let mut i: usize = 0;
        while i < self.entries.len()
            invariant
                i <= self.entries@.len(),
                *self == mid,
                forall|j: int| 0 <= j < i ==> !key_eq((#[trigger] self.entries@[j]).0, *key),
            decreases self.entries@.len() - i,
        {
            if self.entries[i].0.same_key(key) {
                let ts = self.entries[i].1;
                let elapsed = now_ms - ts;
                if elapsed < self.window_ms {
                    proof {
                        assert(mid.spec_throttled(*key, now_ms));
                    }
                    return true;
                }
                proof {
                    assert(!mid.spec_throttled(*key, now_ms)) by {
                        if mid.spec_throttled(*key, now_ms) {
                            let p = choose|p: int|
                                0 <= p < mid.entries@.len() && key_eq(
                                    (#[trigger] mid.entries@[p]).0,
                                    *key,
                                ) && within_window(mid.entries@[p].1, now_ms, mid.window_ms);
                            assert(p == i as int);
                        }
                    }
                }
                let refreshed = (key.clone(), now_ms);
                let ghost pre = self.entries@;
                let _ = self.entries.remove(i);
                self.entries.insert(i, refreshed);
                proof {
                    assert(self.entries@ =~= pre.update(i as int, refreshed));
                    assert(self.entries@[i as int] == refreshed);
                    assert(key_eq(refreshed.0, *key));
                    assert forall|a: int, b: int| 0 <= a < b < self.entries@.len() implies !key_eq(
                        (#[trigger] self.entries@[a]).0,
                        (#[trigger] self.entries@[b]).0,
                    ) by {
                        assert(key_eq(pre[i as int].0, *key));
                    }
                }
                return false;
            }
            i = i + 1;
        }
        proof {
            assert(!mid.spec_throttled(*key, now_ms));
        }
        let fresh = (key.clone(), now_ms);
        self.entries.push(fresh);
        proof {
            assert(self.entries@[self.entries@.len() - 1] == fresh);
            assert(key_eq(fresh.0, *key));
        }
        return false;
    }
}

/// One step of `throttle`, as its contract fixes it: what the result says,
/// what a pass records, and that records still inside their window survive.
pub open spec fn spec_throttle_step(
    pre: DebounceLimiter,
    post: DebounceLimiter,
    key: PeripheralKey,
    now: u64,
    r: bool,
) -> bool {
    &&& post.window_ms == pre.window_ms
    &&& r == pre.spec_throttled(key, now)
    &&& (!r ==> exists|i: int|
        0 <= i < post.entries@.len() && key_eq((#[trigger] post.entries@[i]).0, key)
            && post.entries@[i].1 == now)
    &&& (forall|i: int|
        0 <= i < pre.entries@.len() && within_window(
            (#[trigger] pre.entries@[i]).1,
            now,
            pre.window_ms,
        ) ==> post.entries@.contains(pre.entries@[i]))
}

/// After a pass at `t0`, every state reachable through `throttle` steps
/// whose times stay inside `t0`'s window still records the key at `t0`.
proof fn lemma_debounce_record_persists(
    states: Seq<DebounceLimiter>,
    times: Seq<u64>,
    results: Seq<bool>,
    key: PeripheralKey,
    n: int,
)
    requires
        states.len() == results.len() + 1,
        times.len() == results.len(),
        1 <= n <= results.len(),
        states[0].window_ms > 0,
        !states[0].spec_has(key),
        forall|i: int|
            0 <= i < times.len() ==> times[0] <= #[trigger] times[i] < times[0]
                + states[0].window_ms,
        forall|i: int|
            0 <= i < results.len() ==> spec_throttle_step(
                #[trigger] states[i],
                states[i + 1],
                key,
                times[i],
                results[i],
            ),
    ensures
        states[n].window_ms == states[0].window_ms,
        exists|i: int|
            0 <= i < states[n].entries@.len() && key_eq((#[trigger] states[n].entries@[i]).0, key)
                && states[n].entries@[i].1 == times[0],
    decreases n,
{
    if n == 1 {
        assert(spec_throttle_step(states[0], states[1], key, times[0], results[0]));
        assert(!states[0].spec_throttled(key, times[0]));
        assert(results[0] == false);
    } else {
        lemma_debounce_record_persists(states, times, results, key, n - 1);
        let i = choose|i: int|
            0 <= i < states[n - 1].entries@.len() && key_eq(
                (#[trigger] states[n - 1].entries@[i]).0,
                key,
            ) && states[n - 1].entries@[i].1 == times[0];
        assert(spec_throttle_step(states[n - 1], states[n], key, times[n - 1], results[n - 1]));
        assert(within_window(times[0], times[n - 1], states[n - 1].window_ms));
        assert(states[n].entries@.contains(states[n - 1].entries@[i]));
        let j = choose|j: int|
            0 <= j < states[n].entries@.len() && states[n].entries@[j] == states[n - 1].entries@[i];
    }
}

/// Within one window, a stream of identical keys is accepted exactly once:
/// starting from a limiter without a record of the key, under `throttle`
/// steps at times `t0 <= t_i < t0 + window`, exactly the first call passes
/// (returns false) and every later call in the window is throttled.
pub proof fn lemma_debounce_exactly_one_pass(
    states: Seq<DebounceLimiter>,
    times: Seq<u64>,
    results: Seq<bool>,
    key: PeripheralKey,
)
    requires
        states.len() == results.len() + 1,
        times.len() == results.len(),
        results.len() >= 1,
        states[0].window_ms > 0,
        !states[0].spec_has(key),
        forall|i: int|
            0 <= i < times.len() ==> times[0] <= #[trigger] times[i] < times[0]
                + states[0].window_ms,
        forall|i: int|
            0 <= i < results.len() ==> spec_throttle_step(
                #[trigger] states[i],
                states[i + 1],
                key,
                times[i],
                results[i],
            ),
    ensures
        results[0] == false,
        forall|i: int| 1 <= i < results.len() ==> results[i] == true,
{
    assert(spec_throttle_step(states[0], states[1], key, times[0], results[0]));
    assert(!states[0].spec_throttled(key, times[0]));
    assert forall|i: int| 1 <= i < results.len() implies results[i] == true by {
        lemma_debounce_record_persists(states, times, results, key, i);
        let j = choose|j: int|
            0 <= j < states[i].entries@.len() && key_eq((#[trigger] states[i].entries@[j]).0, key)
                && states[i].entries@[j].1 == times[0];
        assert(within_window(times[0], times[i], states[i].window_ms));
        assert(states[i].spec_throttled(key, times[i]));
        assert(spec_throttle_step(states[i], states[i + 1], key, times[i], results[i]));
    }
}

} // verus!
