use vstd::prelude::*;

verus! {

use std::sync::Arc;
broadcast use vstd::seq_lib::group_seq_properties;

use crate::conf::CharacteristicConfig;
use crate::conf::FlatPeripheralConfig;
use crate::events::CollectorEvent;
use crate::events::ConnectPeripheralRequest;
use crate::model::arc_clone;
use crate::model::Fqcn;
use crate::model::PeripheralKey;

/// What the runtime must do after a scheduling step: publish a connect
/// event, ask the driver to subscribe, or start a long-lived task under
/// the given handle number.
#[derive(Debug)]
pub enum SchedulerAction {
    EmitConnect(ConnectPeripheralRequest),
    DriverSubscribe(Fqcn),
    SpawnNotificationConsumer { address: u64, task: u64 },
    SpawnPollTask { fqcn: Fqcn, task: u64, delay_ms: u64 },
}

/// What the discovery loop does with one central event.
#[derive(Debug, Clone, Copy, PartialEq, Eq, Structural)]
pub enum DiscoveryDecision {
    /// A disconnect event: clean up the peripheral's tasks.
    HandleDisconnect,
    /// Throttled by the debounce limiter: count it and skip.
    SkipThrottled,
    /// No configuration matches this peripheral: skip.
    SkipUnmatched,
    /// Connect every matching characteristic.
    ConnectAll,
}

/// Classifies one debounced central event, exactly as the discovery loop
/// dispatches: disconnects are handled first, then the limiter, then the
/// configuration match.
pub fn classify_event(is_disconnect: bool, throttled: bool, matched: bool) -> (r:
    DiscoveryDecision)
    ensures
        is_disconnect ==> r == DiscoveryDecision::HandleDisconnect,
        !is_disconnect && throttled ==> r == DiscoveryDecision::SkipThrottled,
        !is_disconnect && !throttled && !matched ==> r == DiscoveryDecision::SkipUnmatched,
        !is_disconnect && !throttled && matched ==> r == DiscoveryDecision::ConnectAll,
{
    if is_disconnect {
        DiscoveryDecision::HandleDisconnect
    } else if throttled {
        DiscoveryDecision::SkipThrottled
    } else if !matched {
        DiscoveryDecision::SkipUnmatched
    } else {
        DiscoveryDecision::ConnectAll
    }
}

/// The per-adapter connection scheduler's bookkeeping: one polling task per
/// polled characteristic, exactly one notification consumer per peripheral,
/// and the routing table the consumer reads. Task handles are named by
/// numbers that the runtime maps to real handles.
#[derive(Debug)]
pub struct PeripheralManagerState {
    pub poll_tasks: Vec<(Fqcn, u64)>,
    pub subscription_tasks: Vec<(u64, u64)>,
    pub subscribed_characteristics: Vec<(Fqcn, Arc<CharacteristicConfig>)>,
    pub next_task_id: u64,
}

impl PeripheralManagerState {
    pub open spec fn has_poll(self, fqcn: Fqcn) -> bool {
        exists|i: int|
            0 <= i < self.poll_tasks@.len() && (#[trigger] self.poll_tasks@[i]).0 == fqcn
    }

    pub open spec fn has_subscription(self, address: u64) -> bool {
        exists|i: int|
            0 <= i < self.subscription_tasks@.len() && (#[trigger] self.subscription_tasks@[i]).0
                == address
    }

    pub open spec fn is_subscribed(self, fqcn: Fqcn) -> bool {
        exists|i: int|
            0 <= i < self.subscribed_characteristics@.len() && (
            #[trigger] self.subscribed_characteristics@[i]).0 == fqcn
    }

    /// A characteristic is tracked when it is polled or routed.
    pub open spec fn spec_handled(self, fqcn: Fqcn) -> bool {
        self.has_poll(fqcn) || self.is_subscribed(fqcn)
    }

    /// At most one polling task per fqcn, one consumer per address, one
    /// routing entry per fqcn.
    pub open spec fn wf(self) -> bool {
        (forall|i: int, j: int|
            0 <= i < j < self.poll_tasks@.len() ==> (#[trigger] self.poll_tasks@[i]).0 != (
            #[trigger] self.poll_tasks@[j]).0) && (forall|i: int, j: int|
            0 <= i < j < self.subscription_tasks@.len()
                ==> (#[trigger] self.subscription_tasks@[i]).0 != (
            #[trigger] self.subscription_tasks@[j]).0) && (forall|i: int, j: int|
            0 <= i < j < self.subscribed_characteristics@.len()
                ==> (#[trigger] self.subscribed_characteristics@[i]).0 != (
            #[trigger] self.subscribed_characteristics@[j]).0)
    }

    pub fn new() -> (r: Self)
        ensures
            r.poll_tasks@.len() == 0,
            r.subscription_tasks@.len() == 0,
            r.subscribed_characteristics@.len() == 0,
            r.next_task_id == 0,
            r.wf(),
    {
        PeripheralManagerState {
            poll_tasks: Vec::new(),
            subscription_tasks: Vec::new(),
            subscribed_characteristics: Vec::new(),
            next_task_id: 0,
        }
    }

    /// Whether the characteristic already has a poll task or routing entry.
    pub fn check_characteristic_is_handled(&self, fqcn: Fqcn) -> (r: bool)
        ensures
            r == self.spec_handled(fqcn),
    {
        let mut i: usize = 0;
        while i < self.poll_tasks.len()
            invariant
                i <= self.poll_tasks@.len(),
                forall|j: int| 0 <= j < i ==> (#[trigger] self.poll_tasks@[j]).0 != fqcn,
            decreases self.poll_tasks@.len() - i,
        {
            if self.poll_tasks[i].0 == fqcn {
                return true;
            }
            i = i + 1;
        }
        let mut k: usize = 0;
        while k < self.subscribed_characteristics.len()
            invariant
                k <= self.subscribed_characteristics@.len(),
                !self.has_poll(fqcn),
                forall|j: int|
                    0 <= j < k ==> (#[trigger] self.subscribed_characteristics@[j]).0 != fqcn,
            decreases self.subscribed_characteristics@.len() - k,
        {
            if self.subscribed_characteristics[k].0 == fqcn {
                return true;
            }
            k = k + 1;
        }
        false
    }

    fn has_subscription_task(&self, address: u64) -> (r: bool)
        ensures
            r == self.has_subscription(address),
    {
        let mut i: usize = 0;
        while i < self.subscription_tasks.len()
            invariant
                i <= self.subscription_tasks@.len(),
                forall|j: int| 0 <= j < i ==> (#[trigger] self.subscription_tasks@[j]).0 != address,
            decreases self.subscription_tasks@.len() - i,
        {
            if self.subscription_tasks[i].0 == address {
                return true;
            }
            i = i + 1;
        }
        false
    }

    /// The routing step of the notification consumer: the configuration
    /// under the arriving fqcn, or nothing, in which case the notification
    /// is silently ignored.
    pub fn route_notification(&self, fqcn: Fqcn) -> (r: Option<Arc<CharacteristicConfig>>)
        ensures
            r is Some <==> self.is_subscribed(fqcn),
            r matches Some(c) ==> exists|i: int|
                0 <= i < self.subscribed_characteristics@.len() && (
                #[trigger] self.subscribed_characteristics@[i]).0 == fqcn
                    && self.subscribed_characteristics@[i].1 == c,
    {
        let mut i: usize = 0;
        while i < self.subscribed_characteristics.len()
            invariant
                i <= self.subscribed_characteristics@.len(),
                forall|j: int|
                    0 <= j < i ==> (#[trigger] self.subscribed_characteristics@[j]).0 != fqcn,
            decreases self.subscribed_characteristics@.len() - i,
        {
            if self.subscribed_characteristics[i].0 == fqcn {
                return Some(arc_clone(&self.subscribed_characteristics[i].1));
            }
            i = i + 1;
        }
        None
    }

    /// One step of `connect_all` for a characteristic that matched the
    /// configuration. A characteristic that is already tracked is left
    /// alone. Otherwise the connect event is emitted; a `Subscribe`
    /// characteristic is routed and, only when the peripheral has no
    /// consumer yet, a single notification consumer is spawned; a `Poll`
    /// characteristic gets a polling task of its own.
    #[verifier::loop_isolation(false)]
    pub fn connect_characteristic(
        &mut self,
        peripheral_key: Arc<PeripheralKey>,
        fqcn: Fqcn,
        conf: Arc<CharacteristicConfig>,
    ) -> (actions: Vec<SchedulerAction>)
        requires
            old(self).wf(),
            old(self).next_task_id < u64::MAX,
        ensures
            final(self).wf(),
            old(self).spec_handled(fqcn) ==> *final(self) == *old(self) && actions@.len() == 0,
            !old(self).spec_handled(fqcn) ==> ((*conf) matches CharacteristicConfig::Subscribe {
                ..
            } ==> final(self).poll_tasks == old(self).poll_tasks
                && final(self).subscribed_characteristics@ == old(self).subscribed_characteristics@.push((fqcn, conf)) && (if old(self).has_subscription(
                fqcn.peripheral,
            ) {
                final(self).subscription_tasks == old(self).subscription_tasks && final(self).next_task_id == old(self).next_task_id && actions@ =~= seq![
                    SchedulerAction::EmitConnect(
                        ConnectPeripheralRequest { peripheral_key, fqcn, conf },
                    ),
                    SchedulerAction::DriverSubscribe(fqcn),
                ]
            } else {
                final(self).subscription_tasks@ == old(self).subscription_tasks@.push(
                    (fqcn.peripheral, old(self).next_task_id),
                ) && final(self).next_task_id == old(self).next_task_id + 1 && actions@ =~= seq![
                    SchedulerAction::EmitConnect(
                        ConnectPeripheralRequest { peripheral_key, fqcn, conf },
                    ),
                    SchedulerAction::DriverSubscribe(fqcn),
                    SchedulerAction::SpawnNotificationConsumer {
                        address: fqcn.peripheral,
                        task: old(self).next_task_id,
                    },
                ]
            })),
            !old(self).spec_handled(fqcn) ==> ((*conf) matches CharacteristicConfig::Poll {
                delay_ms,
                ..
            } ==> final(self).subscription_tasks == old(self).subscription_tasks && final(self).subscribed_characteristics == old(self).subscribed_characteristics && final(self).poll_tasks@ == old(self).poll_tasks@.push((fqcn, old(self).next_task_id)) && final(self).next_task_id == old(self).next_task_id + 1 && actions@ =~= seq![
                SchedulerAction::EmitConnect(
                    ConnectPeripheralRequest { peripheral_key, fqcn, conf },
                ),
                SchedulerAction::SpawnPollTask {
                    fqcn,
                    task: old(self).next_task_id,
                    delay_ms,
                },
            ]),
    {
        if self.check_characteristic_is_handled(fqcn) {
            return Vec::new();
        }
        let mut actions: Vec<SchedulerAction> = Vec::new();
        let event_conf = arc_clone(&conf);
        actions.push(
            SchedulerAction::EmitConnect(
                ConnectPeripheralRequest { peripheral_key, fqcn, conf: event_conf },
            ),
        );
        let is_poll = match &*conf {
            CharacteristicConfig::Poll { .. } => true,
            CharacteristicConfig::Subscribe { .. } => false,
        };
        if !is_poll {
            actions.push(SchedulerAction::DriverSubscribe(fqcn));
            let had_consumer = self.has_subscription_task(fqcn.peripheral);
            self.subscribed_characteristics.push((fqcn, conf));
            if !had_consumer {
                let task = self.next_task_id;
                self.subscription_tasks.push((fqcn.peripheral, task));
                self.next_task_id = self.next_task_id + 1;
                actions.push(
                    SchedulerAction::SpawnNotificationConsumer {
                        address: fqcn.peripheral,
                        task,
                    },
                );
            }
            actions
        } else {
            let delay = match &*conf {
                CharacteristicConfig::Poll { delay_ms, .. } => *delay_ms,
                _ => 0,
            };
            let task = self.next_task_id;
            self.poll_tasks.push((fqcn, task));
            self.next_task_id = self.next_task_id + 1;
            actions.push(SchedulerAction::SpawnPollTask { fqcn, task, delay_ms: delay });
            actions
        }
    }


    /// The address appears in some scheduler map.
    pub open spec fn spec_connected(self, address: u64) -> bool {
        (exists|i: int|
            0 <= i < self.poll_tasks@.len() && (#[trigger] self.poll_tasks@[i]).0.peripheral
                == address) || self.has_subscription(address) || (exists|i: int|
            0 <= i < self.subscribed_characteristics@.len() && (
            #[trigger] self.subscribed_characteristics@[i]).0.peripheral == address)
    }

    /// The addresses with any polled or subscribed characteristic, each
    /// once: their number feeds the connected-peripherals gauge.
    #[verifier::loop_isolation(false)]
    pub fn connected_addresses(&self) -> (r: Vec<u64>)
        ensures
            forall|i: int, j: int| 0 <= i < j < r@.len() ==> r@[i] != r@[j],
            forall|a: u64| r@.contains(a) <==> self.spec_connected(a),
    {
        let mut r: Vec<u64> = Vec::new();
        let mut i: usize = 0;
        while i < self.poll_tasks.len()
            invariant
                i <= self.poll_tasks@.len(),
                forall|a: int, b: int| 0 <= a < b < r@.len() ==> r@[a] != r@[b],
                forall|a: u64| r@.contains(a) ==> self.spec_connected(a),
                forall|j: int|
                    0 <= j < i ==> r@.contains((#[trigger] self.poll_tasks@[j]).0.peripheral),
            decreases self.poll_tasks@.len() - i,
        {
            push_unique(&mut r, self.poll_tasks[i].0.peripheral);
            proof {
                assert(self.spec_connected(self.poll_tasks@[i as int].0.peripheral));
            }
            i = i + 1;
        }
        let mut s: usize = 0;
        while s < self.subscription_tasks.len()
            invariant
                s <= self.subscription_tasks@.len(),
                forall|a: int, b: int| 0 <= a < b < r@.len() ==> r@[a] != r@[b],
                forall|a: u64| r@.contains(a) ==> self.spec_connected(a),
                forall|j: int|
                    0 <= j < self.poll_tasks@.len() ==> r@.contains(
                        (#[trigger] self.poll_tasks@[j]).0.peripheral,
                    ),
                forall|j: int|
                    0 <= j < s ==> r@.contains((#[trigger] self.subscription_tasks@[j]).0),
            decreases self.subscription_tasks@.len() - s,
        {
            push_unique(&mut r, self.subscription_tasks[s].0);
            proof {
                assert(self.spec_connected(self.subscription_tasks@[s as int].0));
            }
            s = s + 1;
        }
        let mut c: usize = 0;
        while c < self.subscribed_characteristics.len()
            invariant
                c <= self.subscribed_characteristics@.len(),
                forall|a: int, b: int| 0 <= a < b < r@.len() ==> r@[a] != r@[b],
                forall|a: u64| r@.contains(a) ==> self.spec_connected(a),
                forall|j: int|
                    0 <= j < self.poll_tasks@.len() ==> r@.contains(
                        (#[trigger] self.poll_tasks@[j]).0.peripheral,
                    ),
                forall|j: int|
                    0 <= j < self.subscription_tasks@.len() ==> r@.contains(
                        (#[trigger] self.subscription_tasks@[j]).0,
                    ),
                forall|j: int|
                    0 <= j < c ==> r@.contains(
                        (#[trigger] self.subscribed_characteristics@[j]).0.peripheral,
                    ),
            decreases self.subscribed_characteristics@.len() - c,
        {
            push_unique(&mut r, self.subscribed_characteristics[c].0.peripheral);
            proof {
                assert(self.spec_connected(
                    self.subscribed_characteristics@[c as int].0.peripheral,
                ));
            }
            c = c + 1;
        }
        proof {
            assert forall|a: u64| r@.contains(a) <==> self.spec_connected(a) by {
                if self.spec_connected(a) {
                    assert(r@.contains(a));
                }
            }
        }
        r
    }

    /// Clears every task and routing entry of a disconnected peripheral and
    /// says which task handles to abort. Entries of other peripherals stay.
    #[verifier::loop_isolation(false)]
    pub fn handle_disconnect(&mut self, address: u64) -> (aborted: Vec<u64>)
        requires
            old(self).wf(),
        ensures
            final(self).wf(),
            final(self).next_task_id == old(self).next_task_id,
            !final(self).has_subscription(address),
            forall|i: int|
                0 <= i < final(self).poll_tasks@.len() ==> (
                #[trigger] final(self).poll_tasks@[i]).0.peripheral != address && old(self).poll_tasks@.contains(final(self).poll_tasks@[i]),
            forall|i: int|
                0 <= i < old(self).poll_tasks@.len() ==> ((#[trigger] old(self).poll_tasks@[i]).0.peripheral != address ==> final(self).poll_tasks@.contains(
                    old(self).poll_tasks@[i],
                )),
            forall|i: int|
                0 <= i < final(self).subscription_tasks@.len() ==> (
                #[trigger] final(self).subscription_tasks@[i]).0 != address && old(self).subscription_tasks@.contains(final(self).subscription_tasks@[i]),
            forall|i: int|
                0 <= i < old(self).subscription_tasks@.len() ==> ((#[trigger] old(self).subscription_tasks@[i]).0 != address ==> final(self).subscription_tasks@.contains(old(self).subscription_tasks@[i])),
            forall|i: int|
                0 <= i < final(self).subscribed_characteristics@.len() ==> (
                #[trigger] final(self).subscribed_characteristics@[i]).0.peripheral != address
                    && old(self).subscribed_characteristics@.contains(
                    final(self).subscribed_characteristics@[i],
                ),
            forall|i: int|
                0 <= i < old(self).subscribed_characteristics@.len() ==> ((#[trigger] old(self).subscribed_characteristics@[i]).0.peripheral != address ==> final(self).subscribed_characteristics@.contains(
                    old(self).subscribed_characteristics@[i],
                )),
            forall|i: int|
                0 <= i < old(self).poll_tasks@.len() ==> ((#[trigger] old(self).poll_tasks@[i]).0.peripheral == address ==> aborted@.contains(
                    old(self).poll_tasks@[i].1,
                )),
            forall|i: int|
                0 <= i < old(self).subscription_tasks@.len() ==> ((#[trigger] old(self).subscription_tasks@[i]).0 == address ==> aborted@.contains(
                    old(self).subscription_tasks@[i].1,
                )),
            forall|t: u64|
                aborted@.contains(t) ==> (exists|i: int|
                    0 <= i < old(self).poll_tasks@.len() && (#[trigger] old(self).poll_tasks@[i]).0.peripheral == address && old(self).poll_tasks@[i].1 == t)
                    || (exists|i: int|
                    0 <= i < old(self).subscription_tasks@.len() && (#[trigger] old(self).subscription_tasks@[i]).0 == address && old(self).subscription_tasks@[i].1
                        == t),
    {
        let mut aborted: Vec<u64> = Vec::new();
        let mut kept_polls: Vec<(Fqcn, u64)> = Vec::new();
        let mut i: usize = 0;
        while i < self.poll_tasks.len()
            invariant
                i <= self.poll_tasks@.len(),
                forall|k: int|
                    0 <= k < kept_polls@.len() ==> (#[trigger] kept_polls@[k]).0.peripheral
                        != address && self.poll_tasks@.take(i as int).contains(kept_polls@[k]),
                forall|j: int|
                    0 <= j < i ==> ((#[trigger] self.poll_tasks@[j]).0.peripheral != address
                        ==> kept_polls@.contains(self.poll_tasks@[j])),
                forall|j: int|
                    0 <= j < i ==> ((#[trigger] self.poll_tasks@[j]).0.peripheral == address
                        ==> aborted@.contains(self.poll_tasks@[j].1)),
                forall|t: u64|
                    aborted@.contains(t) ==> exists|j: int|
                        0 <= j < i && (#[trigger] self.poll_tasks@[j]).0.peripheral == address
                            && self.poll_tasks@[j].1 == t,
                forall|a: int, b: int|
                    0 <= a < b < kept_polls@.len() ==> (#[trigger] kept_polls@[a]).0 != (
                    #[trigger] kept_polls@[b]).0,
            decreases self.poll_tasks@.len() - i,
        {
            let entry = self.poll_tasks[i];
            if entry.0.peripheral == address {
                aborted.push(entry.1);
            } else {
                proof {
                    assert forall|a: int| 0 <= a < kept_polls@.len() implies (
                    #[trigger] kept_polls@[a]).0 != entry.0 by {
                        let j = choose|j: int|
                            0 <= j < i && self.poll_tasks@.take(i as int)[j] == kept_polls@[a];
                        assert(self.poll_tasks@[j] == kept_polls@[a]);
                    }
                    assert(self.poll_tasks@.take(i + 1).contains(self.poll_tasks@[i as int]));
                }
                kept_polls.push(entry);
            }
            proof {
                assert forall|k: int| 0 <= k < kept_polls@.len() implies (
                #[trigger] kept_polls@[k]).0.peripheral != address && self.poll_tasks@.take(
                    i + 1,
                ).contains(kept_polls@[k]) by {
                    if self.poll_tasks@.take(i as int).contains(kept_polls@[k]) {
                        let j = choose|j: int|
                            0 <= j < i && self.poll_tasks@.take(i as int)[j] == kept_polls@[k];
                        assert(self.poll_tasks@.take(i + 1)[j] == kept_polls@[k]);
                    }
                }
            }
            i = i + 1;
        }
        proof {
            assert(self.poll_tasks@.take(self.poll_tasks@.len() as int) =~= self.poll_tasks@);
        }
        self.poll_tasks = kept_polls;
        let ghost aborted_polls = aborted@;
        let mut kept_subs: Vec<(u64, u64)> = Vec::new();
        let mut s: usize = 0;
        while s < self.subscription_tasks.len()
            invariant
                s <= self.subscription_tasks@.len(),
                aborted@.len() >= aborted_polls.len(),
                forall|x: int| 0 <= x < aborted_polls.len() ==> aborted@[x] == aborted_polls[x],
                forall|k: int|
                    0 <= k < kept_subs@.len() ==> (#[trigger] kept_subs@[k]).0 != address
                        && self.subscription_tasks@.take(s as int).contains(kept_subs@[k]),
                forall|j: int|
                    0 <= j < s ==> ((#[trigger] self.subscription_tasks@[j]).0 != address
                        ==> kept_subs@.contains(self.subscription_tasks@[j])),
                forall|j: int|
                    0 <= j < s ==> ((#[trigger] self.subscription_tasks@[j]).0 == address
                        ==> aborted@.contains(self.subscription_tasks@[j].1)),
                forall|t: u64|
                    aborted@.contains(t) ==> aborted_polls.contains(t) || exists|j: int|
                        0 <= j < s && (#[trigger] self.subscription_tasks@[j]).0 == address
                            && self.subscription_tasks@[j].1 == t,
                forall|a: int, b: int|
                    0 <= a < b < kept_subs@.len() ==> (#[trigger] kept_subs@[a]).0 != (
                    #[trigger] kept_subs@[b]).0,
            decreases self.subscription_tasks@.len() - s,
        {
            let entry = self.subscription_tasks[s];
            if entry.0 == address {
                aborted.push(entry.1);
            } else {
                proof {
                    assert forall|a: int| 0 <= a < kept_subs@.len() implies (
                    #[trigger] kept_subs@[a]).0 != entry.0 by {
                        let j = choose|j: int|
                            0 <= j < s && self.subscription_tasks@.take(s as int)[j]
                                == kept_subs@[a];
                        assert(self.subscription_tasks@[j] == kept_subs@[a]);
                    }
                    assert(self.subscription_tasks@.take(s + 1).contains(
                        self.subscription_tasks@[s as int],
                    ));
                }
                kept_subs.push(entry);
            }
            proof {
                assert forall|k: int| 0 <= k < kept_subs@.len() implies (
                #[trigger] kept_subs@[k]).0 != address && self.subscription_tasks@.take(
                    s + 1,
                ).contains(kept_subs@[k]) by {
                    if self.subscription_tasks@.take(s as int).contains(kept_subs@[k]) {
                        let j = choose|j: int|
                            0 <= j < s && self.subscription_tasks@.take(s as int)[j]
                                == kept_subs@[k];
                        assert(self.subscription_tasks@.take(s + 1)[j] == kept_subs@[k]);
                    }
                }
            }
            s = s + 1;
        }
        proof {
            assert(self.subscription_tasks@.take(self.subscription_tasks@.len() as int)
                =~= self.subscription_tasks@);
            assert forall|t: u64| aborted@.contains(t) implies ((exists|i: int|
                0 <= i < old(self).poll_tasks@.len() && (#[trigger] old(self).poll_tasks@[i]).0.peripheral == address && old(self).poll_tasks@[i].1 == t) || (
            exists|i: int|
                0 <= i < old(self).subscription_tasks@.len() && (#[trigger] old(self).subscription_tasks@[i]).0 == address && old(self).subscription_tasks@[i].1
                    == t)) by {
                if aborted_polls.contains(t) {
                    assert(exists|i: int|
                        0 <= i < old(self).poll_tasks@.len() && (#[trigger] old(self).poll_tasks@[i]).0.peripheral == address && old(self).poll_tasks@[i].1
                            == t);
                }
            }
        }
        self.subscription_tasks = kept_subs;
        let mut kept_chars: Vec<(Fqcn, Arc<CharacteristicConfig>)> = Vec::new();
        let mut c: usize = 0;
        while c < self.subscribed_characteristics.len()
            invariant
                c <= self.subscribed_characteristics@.len(),
                forall|k: int|
                    0 <= k < kept_chars@.len() ==> (#[trigger] kept_chars@[k]).0.peripheral
                        != address && self.subscribed_characteristics@.take(c as int).contains(
                        kept_chars@[k],
                    ),
                forall|j: int|
                    0 <= j < c ==> ((#[trigger] self.subscribed_characteristics@[j]).0.peripheral
                        != address ==> kept_chars@.contains(
                        self.subscribed_characteristics@[j],
                    )),
                forall|a: int, b: int|
                    0 <= a < b < kept_chars@.len() ==> (#[trigger] kept_chars@[a]).0 != (
                    #[trigger] kept_chars@[b]).0,
            decreases self.subscribed_characteristics@.len() - c,
        {
            let entry = &self.subscribed_characteristics[c];
            if entry.0.peripheral != address {
                let copied = (entry.0, arc_clone(&entry.1));
                proof {
                    assert(copied == self.subscribed_characteristics@[c as int]);
                    assert forall|a: int| 0 <= a < kept_chars@.len() implies (
                    #[trigger] kept_chars@[a]).0 != copied.0 by {
                        let j = choose|j: int|
                            0 <= j < c && self.subscribed_characteristics@.take(c as int)[j]
                                == kept_chars@[a];
                        assert(self.subscribed_characteristics@[j] == kept_chars@[a]);
                    }
                    assert(self.subscribed_characteristics@.take(c + 1).contains(
                        self.subscribed_characteristics@[c as int],
                    ));
                }
                kept_chars.push(copied);
            }
            proof {
                assert forall|k: int| 0 <= k < kept_chars@.len() implies (
                #[trigger] kept_chars@[k]).0.peripheral != address
                    && self.subscribed_characteristics@.take(c + 1).contains(kept_chars@[k]) by {
                    if self.subscribed_characteristics@.take(c as int).contains(kept_chars@[k]) {
                        let j = choose|j: int|
                            0 <= j < c && self.subscribed_characteristics@.take(c as int)[j]
                                == kept_chars@[k];
                        assert(self.subscribed_characteristics@.take(c + 1)[j] == kept_chars@[k]);
                    }
                }
            }
            c = c + 1;
        }
        proof {
            assert(self.subscribed_characteristics@.take(
                self.subscribed_characteristics@.len() as int,
            ) =~= self.subscribed_characteristics@);
        }
        self.subscribed_characteristics = kept_chars;
        proof {
            if self.has_subscription(address) {
                let i = choose|i: int|
                    0 <= i < self.subscription_tasks@.len() && (
                    #[trigger] self.subscription_tasks@[i]).0 == address;
            }
        }
        aborted
    }

    /// The disconnect events owed downstream for one peripheral: one per
    /// configured characteristic, in configuration order.
    pub fn disconnect_events(config: &FlatPeripheralConfig, address: u64) -> (r: Vec<
        CollectorEvent,
    >)
        ensures
            r@.len() == config.service_map@.len(),
            forall|i: int|
                0 <= i < r@.len() ==> ((#[trigger] r@[i]) matches CollectorEvent::Disconnect(f, c)
                    && f == (Fqcn {
                    peripheral: address,
                    service: config.service_map@[i].0.service_uuid,
                    characteristic: config.service_map@[i].0.characteristic_uuid,
                }) && c == config.service_map@[i].1),
    {
        let mut r: Vec<CollectorEvent> = Vec::new();
        let mut i: usize = 0;
        while i < config.service_map.len()
            invariant
                i <= config.service_map@.len(),
                r@.len() == i,
                forall|j: int|
                    0 <= j < i ==> ((#[trigger] r@[j]) matches CollectorEvent::Disconnect(f, c)
                        && f == (Fqcn {
                        peripheral: address,
                        service: config.service_map@[j].0.service_uuid,
                        characteristic: config.service_map@[j].0.characteristic_uuid,
                    }) && c == config.service_map@[j].1),
            decreases config.service_map@.len() - i,
        {
            let key = config.service_map[i].0;
            let fqcn = Fqcn {
                peripheral: address,
                service: key.service_uuid,
                characteristic: key.characteristic_uuid,
            };
            r.push(CollectorEvent::Disconnect(fqcn, arc_clone(&config.service_map[i].1)));
            i = i + 1;
        }
        r
    }
}


/// Appends the address unless it is already listed.
#[verifier::loop_isolation(false)]
fn push_unique(r: &mut Vec<u64>, address: u64)
    requires
        forall|a: int, b: int| 0 <= a < b < old(r)@.len() ==> old(r)@[a] != old(r)@[b],
    ensures
        forall|a: int, b: int| 0 <= a < b < final(r)@.len() ==> final(r)@[a] != final(r)@[b],
        final(r)@.contains(address),
        forall|a: u64| final(r)@.contains(a) <==> old(r)@.contains(a) || a == address,
{
    let mut i: usize = 0;
    while i < r.len()
        invariant
            i <= r@.len(),
            *r == *old(r),
            forall|j: int| 0 <= j < i ==> r@[j] != address,
        decreases r@.len() - i,
    {
        if r[i] == address {
            proof {
                assert(r@.contains(address));
            }
            return ;
        }
        i = i + 1;
    }
    r.push(address);
    proof {
        assert(r@[r@.len() - 1] == address);
        assert forall|a: u64| r@.contains(a) <==> old(r)@.contains(a) || a == address by {
            if r@.contains(a) && a != address {
                let j = choose|j: int| 0 <= j < r@.len() && r@[j] == a;
                assert(old(r)@[j] == a);
            }
            if old(r)@.contains(a) {
                let j = choose|j: int| 0 <= j < old(r)@.len() && old(r)@[j] == a;
                assert(r@[j] == a);
            }
        }
    }
}

/// No two polling tasks ever exist for the same fqcn, and no two
/// notification consumers for the same address: the scheduler's maps hold
/// each key at most once.
pub proof fn lemma_single_task_per_key(s: PeripheralManagerState)
    requires
        s.wf(),
    ensures
        forall|i: int, j: int|
            0 <= i < j < s.poll_tasks@.len() ==> (#[trigger] s.poll_tasks@[i]).0 != (
            #[trigger] s.poll_tasks@[j]).0,
        forall|i: int, j: int|
            0 <= i < j < s.subscription_tasks@.len() ==> (#[trigger] s.subscription_tasks@[i]).0
                != (#[trigger] s.subscription_tasks@[j]).0,
{
}

} // verus!
