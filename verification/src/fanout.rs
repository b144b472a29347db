use vstd::prelude::*;

verus! {

use crate::events::CollectorEvent;

/// The sending half of one consumer's bounded channel.
#[verifier::external_type_specification]
#[verifier::external_body]
#[verifier::reject_recursive_types(T)]
pub struct ExKanalSender<T>(kanal::Sender<T>);

/// Relies on kanal::Sender::send: the value enters the consumer's FIFO
/// channel (blocking under back-pressure), and the call fails only when the
/// channel is closed. Nothing is promised of the result: a consumer may
/// close its channel at any time.
#[verifier::external_body]
fn send_one(s: &kanal::Sender<CollectorEvent>, v: CollectorEvent) -> (r: Result<(), ()>) {
    s.send(v).map_err(|_| ())
}

/// After a send that broke at consumer `k`: consumers before `k` were
/// handed the event, consumers from `k` on were not.
pub open spec fn spec_handed_prefix(
    handed: Seq<Seq<CollectorEvent>>,
    old_history: Seq<CollectorEvent>,
    event: CollectorEvent,
    k: int,
) -> bool {
    (forall|i: int| 0 <= i < k ==> #[trigger] handed[i] == old_history.push(event)) && (forall|
        i: int,
    |
        k <= i < handed.len() ==> #[trigger] handed[i] == old_history)
}

/// Multiplexes one producer onto any number of bounded consumer channels.
/// Each successful `send` hands one clone of the event to every consumer,
/// in consumer order; the ghost `handed` sequences record, per consumer,
/// exactly what was handed over, and `history` the fully delivered events.
pub struct FanOutSender {
    pub senders: Vec<kanal::Sender<CollectorEvent>>,
    pub history: Ghost<Seq<CollectorEvent>>,
    pub handed: Ghost<Seq<Seq<CollectorEvent>>>,
}

impl FanOutSender {
    /// One handed-over sequence per consumer, and every consumer has been
    /// handed exactly the delivered history, in order.
    pub open spec fn wf(self) -> bool {
        self.handed@.len() == self.senders@.len() && (forall|i: int|
            0 <= i < self.handed@.len() ==> #[trigger] self.handed@[i] == self.history@)
    }

    pub open spec fn consumer_count(self) -> nat {
        self.senders@.len()
    }

    pub fn new(senders: Vec<kanal::Sender<CollectorEvent>>) -> (r: Self)
        ensures
            r.wf(),
            r.history@.len() == 0,
            r.consumer_count() == senders@.len(),
    {
        let ghost n = senders@.len();
        FanOutSender {
            senders,
            history: Ghost(Seq::empty()),
            handed: Ghost(Seq::new(n, |i: int| Seq::empty())),
        }
    }

    /// Registers one more consumer. A consumer that joins late is handed
    /// events only from then on, so the sender must still be unused.
    pub fn add(&mut self, sender: kanal::Sender<CollectorEvent>)
        requires
            old(self).wf(),
            old(self).history@.len() == 0,
        ensures
            final(self).wf(),
            final(self).history@.len() == 0,
            final(self).consumer_count() == old(self).consumer_count() + 1,
    {
        self.senders.push(sender);
        proof {
            self.handed = Ghost(self.handed@.push(Seq::empty()));
            assert forall|i: int| 0 <= i < self.handed@.len() implies #[trigger] self.handed@[i]
                == self.history@ by {
                if i < self.handed@.len() - 1 {
                    assert(self.handed@[i] == old(self).handed@[i]);
                } else {
                    assert(self.handed@[i] =~= self.history@);
                }
            }
        }
    }

    /// Hands one clone of the event to every consumer, in order. On success
    /// every consumer received it; when a channel is closed the send stops
    /// there, consumers before the broken one have received the event and
    /// the rest have not. Failure can only come out of a channel, so with
    /// no consumer the send always succeeds.
    #[verifier::loop_isolation(false)]
    pub fn send(&mut self, event: CollectorEvent) -> (r: Result<(), crate::error::CollectorError>)
        requires
            old(self).wf(),
        ensures
            final(self).senders@ == old(self).senders@,
            old(self).senders@.len() == 0 ==> r is Ok,
            r is Ok ==> final(self).wf() && final(self).history@ == old(self).history@.push(event)
                && (forall|i: int|
                0 <= i < final(self).handed@.len() ==> #[trigger] final(self).handed@[i] == old(self).history@.push(event)),
            r is Err ==> r == Err::<(), _>(CollectorError::ChannelSendError) && final(self).history@ == old(self).history@ && final(self).handed@.len() == old(self).handed@.len()
                && (exists|k: int|
                0 <= k < old(self).senders@.len() && #[trigger] spec_handed_prefix(
                    final(self).handed@,
                    old(self).history@,
                    event,
                    k,
                )),
    {
        let mut i: usize = 0;
        while i < self.senders.len()
            invariant
                i <= self.senders@.len(),
                self.senders@ == old(self).senders@,
                self.history@ == old(self).history@,
                self.handed@.len() == self.senders@.len(),
                forall|j: int|
                    0 <= j < i ==> #[trigger] self.handed@[j] == old(self).history@.push(event),
                forall|j: int|
                    i <= j < self.handed@.len() ==> #[trigger] self.handed@[j] == old(self).history@,
            decreases self.senders@.len() - i,
        {
            match send_one(&self.senders[i], event.clone()) {
                Ok(()) => {
                    proof {
                        self.handed = Ghost(
                            self.handed@.update(i as int, self.handed@[i as int].push(event)),
                        );
                    }
                },
                Err(()) => {
                    proof {
                        assert(self.handed@.len() == old(self).handed@.len());
                        assert(spec_handed_prefix(
                            self.handed@,
                            old(self).history@,
                            event,
                            i as int,
                        ));
                    }
                    return Err(crate::error::CollectorError::ChannelSendError);
                },
            }
            i = i + 1;
        }
        proof {
            self.history = Ghost(self.history@.push(event));
        }
        Ok(())
    }
}

use crate::error::CollectorError;

/// A fan-out of `n` successful sends delivers exactly `n` events to each
/// consumer: every consumer's handed-over sequence is as long as the
/// delivered history.
pub proof fn lemma_fanout_counts(s: FanOutSender)
    requires
        s.wf(),
    ensures
        forall|i: int| 0 <= i < s.consumer_count() ==> (#[trigger] s.handed@[i]).len()
            == s.history@.len(),
{
}

/// Fan-out preserves the producer's order at every consumer, and all
/// consumers observe the same interleaving: each was handed exactly the
/// history. In particular, when the producer's payloads for one
/// characteristic carry strictly increasing creation times, they reach
/// every consumer in strictly increasing creation order.
pub proof fn lemma_fanout_order(s: FanOutSender, fqcn: crate::model::Fqcn)
    requires
        s.wf(),
        forall|a: int, b: int|
            0 <= a < b < s.history@.len() && payload_created_at(#[trigger] s.history@[a], fqcn)
                is Some && payload_created_at(#[trigger] s.history@[b], fqcn) is Some
                ==> payload_created_at(s.history@[a], fqcn)->0 < payload_created_at(
                s.history@[b],
                fqcn,
            )->0,
    ensures
        forall|i: int| 0 <= i < s.consumer_count() ==> #[trigger] s.handed@[i] == s.history@,
        forall|i: int, a: int, b: int|
            0 <= i < s.consumer_count() && 0 <= a < b < s.handed@[i].len() && payload_created_at(
                #[trigger] s.handed@[i][a],
                fqcn,
            ) is Some && payload_created_at(#[trigger] s.handed@[i][b], fqcn) is Some
                ==> payload_created_at(s.handed@[i][a], fqcn)->0 < payload_created_at(
                s.handed@[i][b],
                fqcn,
            )->0,
{
    assert forall|i: int, a: int, b: int|
        0 <= i < s.consumer_count() && 0 <= a < b < s.handed@[i].len() && payload_created_at(
            #[trigger] s.handed@[i][a],
            fqcn,
        ) is Some && payload_created_at(#[trigger] s.handed@[i][b], fqcn) is Some
        implies payload_created_at(s.handed@[i][a], fqcn)->0 < payload_created_at(
        s.handed@[i][b],
        fqcn,
    )->0 by {
        assert(s.handed@[i] == s.history@);
        assert(s.handed@[i][a] == s.history@[a]);
        assert(s.handed@[i][b] == s.history@[b]);
    }
}

/// The creation time of an event, when it is a payload for the given
/// characteristic.
pub open spec fn payload_created_at(e: CollectorEvent, fqcn: crate::model::Fqcn) -> Option<u64> {
    match e {
        CollectorEvent::Payload(p) => if p.fqcn == fqcn {
            Some(p.created_at)
        } else {
            None
        },
        _ => None,
    }
}

} // verus!
