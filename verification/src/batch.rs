use vstd::prelude::*;

verus! {

use crate::error::CollectorError;
use crate::model::Fqcn;

/// How a write is performed on the wire.
#[derive(Debug, Clone, Copy, PartialEq, Eq, Structural)]
pub enum WriteType {
    WithResponse,
    WithoutResponse,
}

/// One read or write against a characteristic. Timeouts are in milliseconds;
/// a command without one runs under the configured default.
#[derive(Debug, Clone)]
pub enum IoCommand {
    Write { fqcn: Fqcn, value: Vec<u8>, wait_response: bool, timeout_ms: Option<u64> },
    Read { fqcn: Fqcn, wait_notification: bool, timeout_ms: Option<u64> },
}

impl IoCommand {
    pub open spec fn spec_fqcn(self) -> Fqcn {
        match self {
            IoCommand::Write { fqcn, .. } => fqcn,
            IoCommand::Read { fqcn, .. } => fqcn,
        }
    }

    pub open spec fn spec_timeout(self) -> Option<u64> {
        match self {
            IoCommand::Write { timeout_ms, .. } => timeout_ms,
            IoCommand::Read { timeout_ms, .. } => timeout_ms,
        }
    }

    /// Whether this is a read that waits for a notification: such reads
    /// subscribe first and count down the batch's latch.
    pub open spec fn is_async_read(self) -> bool {
        self matches IoCommand::Read { wait_notification: true, .. }
    }

    pub fn get_fqcn(&self) -> (r: Fqcn)
        ensures
            r == self.spec_fqcn(),
    {
        match self {
            IoCommand::Write { fqcn, .. } => *fqcn,
            IoCommand::Read { fqcn, .. } => *fqcn,
        }
    }

    pub fn get_timeout(&self) -> (r: Option<u64>)
        ensures
            r == self.spec_timeout(),
    {
        match self {
            IoCommand::Write { timeout_ms, .. } => *timeout_ms,
            IoCommand::Read { timeout_ms, .. } => *timeout_ms,
        }
    }

    /// Writes that wait for a response use the acknowledged write type.
    pub fn get_write_type(&self) -> (r: WriteType)
        ensures
            self matches IoCommand::Write { wait_response: true, .. } ==> r
                == WriteType::WithResponse,
            !(self matches IoCommand::Write { wait_response: true, .. }) ==> r
                == WriteType::WithoutResponse,
    {
        match self {
            IoCommand::Write { wait_response, .. } => {
                if *wait_response {
                    WriteType::WithResponse
                } else {
                    WriteType::WithoutResponse
                }
            },
            IoCommand::Read { .. } => WriteType::WithoutResponse,
        }
    }
}

/// One ordered group of commands, with its own parallelism bound.
#[derive(Debug)]
pub struct PeripheralIoBatchRequestDto {
    pub commands: Vec<IoCommand>,
    pub parallelism: Option<usize>,
}

/// A sequence of batches, with a bound on how many run side by side.
#[derive(Debug)]
pub struct PeripheralIoRequestDto {
    pub batches: Vec<PeripheralIoBatchRequestDto>,
    pub parallelism: Option<usize>,
}

/// Parallelism knobs are bounded to `[1, 64]`.
pub open spec fn parallelism_wf(p: Option<usize>) -> bool {
    p matches Some(v) ==> 1 <= v <= 64
}

/// The effective parallelism: the explicit knob, or the default; always
/// inside the documented [1, 64] bound.
pub fn effective_parallelism(p: &Option<usize>, default: usize) -> (r: usize)
    requires
        parallelism_wf(*p),
        1 <= default <= 64,
    ensures
        p matches Some(v) ==> r == v,
        p is None ==> r == default,
        1 <= r <= 64,
{
    match p {
        Some(v) => *v,
        None => default,
    }
}

/// How many reads of a batch wait for a notification, counted in order.
pub open spec fn spec_async_reads(s: Seq<IoCommand>) -> nat
    decreases s.len(),
{
    if s.len() == 0 {
        0
    } else {
        spec_async_reads(s.drop_last()) + if s.last().is_async_read() {
            1nat
        } else {
            0nat
        }
    }
}

impl PeripheralIoBatchRequestDto {
    /// The size of the countdown latch: one permit per read that waits for
    /// a notification.
    pub fn get_async_reads_count(&self) -> (r: usize)
        ensures
            r == spec_async_reads(self.commands@),
    {
        let mut count: usize = 0;
        let mut i: usize = 0;
        proof {
            assert(self.commands@.take(0) =~= Seq::<IoCommand>::empty());
        }
        while i < self.commands.len()
            invariant
                i <= self.commands@.len(),
                count == spec_async_reads(self.commands@.take(i as int)),
                count <= i,
            decreases self.commands@.len() - i,
        {
            proof {
                assert(self.commands@.take(i + 1).drop_last() =~= self.commands@.take(i as int));
                assert(self.commands@.take(i + 1).last() == self.commands@[i as int]);
            }
            let is_async = match &self.commands[i] {
                IoCommand::Read { wait_notification, .. } => *wait_notification,
                IoCommand::Write { .. } => false,
            };
            if is_async {
                count = count + 1;
            }
            i = i + 1;
        }
        proof {
            assert(self.commands@.take(self.commands@.len() as int) =~= self.commands@);
        }
        count
    }
}

/// The timeout to run a command under: the command's own, or the default.
pub fn effective_timeout(cmd: &IoCommand, default_ms: u64) -> (r: u64)
    ensures
        cmd.spec_timeout() matches Some(t) ==> r == t,
        cmd.spec_timeout() is None ==> r == default_ms,
{
    match cmd.get_timeout() {
        Some(t) => t,
        None => default_ms,
    }
}

/// A zero timeout has already elapsed: the command fails fast with a
/// timeout error before any work is attempted.
pub fn check_deadline(timeout_ms: u64) -> (r: Result<u64, CollectorError>)
    ensures
        timeout_ms == 0 ==> r == Err::<u64, _>(CollectorError::TimeoutError),
        timeout_ms > 0 ==> r == Ok::<_, CollectorError>(timeout_ms),
{
    if timeout_ms == 0 {
        Err(CollectorError::TimeoutError)
    } else {
        Ok(timeout_ms)
    }
}

/// One slot of a batch response: a value or a per-command failure.
#[derive(Debug, Clone, PartialEq)]
pub enum ResultDto {
    Value(Vec<u8>),
    Error { message: String },
}

/// The response slot a command contributes: a read always fills its slot,
/// with the value or the error; a write fills it only on failure, so a
/// write's empty slot means success.
pub fn command_slot(is_read: bool, outcome: Result<Vec<u8>, CollectorError>) -> (r: Option<
    ResultDto,
>)
    ensures
        is_read ==> (match outcome {
            Ok(v) => r matches Some(s) && s matches ResultDto::Value(b) && b == v,
            Err(e) => r matches Some(s) && s matches ResultDto::Error { message } && message@
                == e.spec_message(),
        }),
        !is_read ==> (match outcome {
            Ok(_) => r is None,
            Err(e) => r matches Some(s) && s matches ResultDto::Error { message } && message@
                == e.spec_message(),
        }),
{
    match outcome {
        Ok(v) => {
            if is_read {
                Some(ResultDto::Value(v))
            } else {
                None
            }
        },
        Err(e) => Some(ResultDto::Error { message: e.message() }),
    }
}

/// What the executor did, in the order it did it.
#[derive(Debug, Clone, Copy, PartialEq, Eq, Structural)]
pub enum BatchEvent {
    /// An asynchronous read's subscription went in place.
    Subscribed { fqcn: Fqcn },
    /// An asynchronous read counted the latch down, after its subscription.
    CountedDown { fqcn: Fqcn },
    /// A plain read was issued.
    ReadIssued { fqcn: Fqcn },
    /// A write was issued, after the latch was fully released.
    WriteIssued { fqcn: Fqcn },
}

/// How many latch releases a log prefix holds.
pub open spec fn spec_countdowns(log: Seq<BatchEvent>) -> nat
    decreases log.len(),
{
    if log.len() == 0 {
        0
    } else {
        spec_countdowns(log.drop_last()) + if log.last() matches BatchEvent::CountedDown { .. } {
            1nat
        } else {
            0nat
        }
    }
}

/// A log obeys the barrier when every write is preceded by at least
/// `needed` latch releases.
pub open spec fn spec_log_obeys_barrier(log: Seq<BatchEvent>, needed: nat) -> bool {
    forall|i: int|
        (0 <= i < log.len() && (#[trigger] log[i]) matches BatchEvent::WriteIssued { .. })
            ==> spec_countdowns(log.take(i)) >= needed
}

/// Every countdown in the log immediately follows its own subscription: the
/// latch is never released before the subscription is in place.
pub open spec fn spec_countdowns_follow_subscriptions(log: Seq<BatchEvent>) -> bool {
    forall|i: int|
        (0 <= i < log.len() && (#[trigger] log[i]) matches BatchEvent::CountedDown { .. })
            ==> i >= 1 && log[i - 1] == (BatchEvent::Subscribed { fqcn: log[i]->CountedDown_fqcn })
}

/// Coordinates one batch: the countdown latch sized to the asynchronous
/// reads, and the ordered log of what was issued. Writes may only be
/// recorded once the latch is fully released, so the log always obeys the
/// barrier.
#[derive(Debug)]
pub struct BatchCoordinator {
    pub needed: usize,
    pub arrived: usize,
    pub log: Vec<BatchEvent>,
}

impl BatchCoordinator {
    /// The latch arrival count equals the countdowns the log records, and
    /// never exceeds what the latch was sized to.
    pub open spec fn wf(self) -> bool {
        self.arrived == spec_countdowns(self.log@) && self.arrived <= self.needed
            && spec_log_obeys_barrier(self.log@, self.needed as nat)
            && spec_countdowns_follow_subscriptions(self.log@)
    }

    /// A coordinator for a batch with `needed` asynchronous reads.
    pub fn new(needed: usize) -> (r: Self)
        ensures
            r.needed == needed,
            r.arrived == 0,
            r.log@.len() == 0,
            r.wf(),
    {
        BatchCoordinator { needed, arrived: 0, log: Vec::new() }
    }

    /// An asynchronous read reports that its subscription went in place and
    /// then counts the latch down, in that order. The executor calls this
    /// exactly once per asynchronous read, and the latch was sized to their
    /// number.
    pub fn record_subscribed(&mut self, fqcn: Fqcn)
        requires
            old(self).wf(),
            old(self).arrived < old(self).needed,
        ensures
            final(self).wf(),
            final(self).needed == old(self).needed,
            final(self).arrived == old(self).arrived + 1,
            final(self).log@ == old(self).log@.push(BatchEvent::Subscribed { fqcn }).push(
                BatchEvent::CountedDown { fqcn },
            ),
    {
        proof {
            let mid = self.log@.push(BatchEvent::Subscribed { fqcn });
            assert(mid.drop_last() =~= self.log@);
            assert(spec_countdowns(mid) == spec_countdowns(self.log@));
            let newlog = mid.push(BatchEvent::CountedDown { fqcn });
            assert(newlog.drop_last() =~= mid);
            assert forall|i: int|
                (0 <= i < newlog.len() && (#[trigger] newlog[i])
                    matches BatchEvent::WriteIssued { .. }) implies spec_countdowns(
                    newlog.take(i),
                ) >= self.needed by {
                assert(newlog.take(i) =~= self.log@.take(i));
            }
            assert forall|i: int|
                (0 <= i < newlog.len() && (#[trigger] newlog[i])
                    matches BatchEvent::CountedDown { .. }) implies i >= 1 && newlog[i - 1] == (
            BatchEvent::Subscribed { fqcn: newlog[i]->CountedDown_fqcn }) by {
                if i < self.log@.len() {
                    assert(newlog[i] == self.log@[i]);
                }
            }
        }
        self.log.push(BatchEvent::Subscribed { fqcn });
        self.log.push(BatchEvent::CountedDown { fqcn });
        self.arrived = self.arrived + 1;
    }

    /// A plain read was issued.
    pub fn record_read(&mut self, fqcn: Fqcn)
        requires
            old(self).wf(),
        ensures
            final(self).wf(),
            final(self).needed == old(self).needed,
            final(self).arrived == old(self).arrived,
            final(self).log@ == old(self).log@.push(BatchEvent::ReadIssued { fqcn }),
    {
        proof {
            let newlog = self.log@.push(BatchEvent::ReadIssued { fqcn });
            assert(newlog.drop_last() =~= self.log@);
            assert forall|i: int|
                (0 <= i < newlog.len() && (#[trigger] newlog[i])
                    matches BatchEvent::WriteIssued { .. }) implies spec_countdowns(
                    newlog.take(i),
                ) >= self.needed by {
                assert(newlog.take(i) =~= self.log@.take(i));
            }
            assert forall|i: int|
                (0 <= i < newlog.len() && (#[trigger] newlog[i])
                    matches BatchEvent::CountedDown { .. }) implies i >= 1 && newlog[i - 1] == (
            BatchEvent::Subscribed { fqcn: newlog[i]->CountedDown_fqcn }) by {
                assert(newlog[i] == self.log@[i]);
            }
        }
        self.log.push(BatchEvent::ReadIssued { fqcn });
    }

    /// Whether a write may proceed: every asynchronous read has counted the
    /// latch down.
    pub fn can_write(&self) -> (r: bool)
        ensures
            r == (self.arrived >= self.needed),
    {
        self.arrived >= self.needed
    }

    /// A write is issued. It must have waited on the latch: every
    /// asynchronous read's subscription is in place.
    pub fn record_write(&mut self, fqcn: Fqcn)
        requires
            old(self).wf(),
            old(self).arrived >= old(self).needed,
        ensures
            final(self).wf(),
            final(self).needed == old(self).needed,
            final(self).arrived == old(self).arrived,
            final(self).log@ == old(self).log@.push(BatchEvent::WriteIssued { fqcn }),
    {
        proof {
            let newlog = self.log@.push(BatchEvent::WriteIssued { fqcn });
            assert(newlog.drop_last() =~= self.log@);
            assert forall|i: int|
                (0 <= i < newlog.len() && (#[trigger] newlog[i])
                    matches BatchEvent::WriteIssued { .. }) implies spec_countdowns(
                    newlog.take(i),
                ) >= self.needed by {
                if i < self.log@.len() {
                    assert(newlog.take(i) =~= self.log@.take(i));
                } else {
                    assert(newlog.take(i) =~= self.log@);
                }
            }
            assert forall|i: int|
                (0 <= i < newlog.len() && (#[trigger] newlog[i])
                    matches BatchEvent::CountedDown { .. }) implies i >= 1 && newlog[i - 1] == (
            BatchEvent::Subscribed { fqcn: newlog[i]->CountedDown_fqcn }) by {
                assert(newlog[i] == self.log@[i]);
            }
        }
        self.log.push(BatchEvent::WriteIssued { fqcn });
    }
}

/// The batch executor never issues a write that did not wait on its latch:
/// in every log a coordinator produces, each write is preceded by one latch
/// release per asynchronous read, the latch is released at most once per
/// asynchronous read, and never before that read's subscription is in place.
pub proof fn lemma_writes_wait_for_barrier(c: BatchCoordinator)
    requires
        c.wf(),
    ensures
        spec_log_obeys_barrier(c.log@, c.needed as nat),
        spec_countdowns(c.log@) <= c.needed,
        spec_countdowns_follow_subscriptions(c.log@),
{
}

} // verus!
