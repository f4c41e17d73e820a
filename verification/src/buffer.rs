//! The debounced batch buffer: records pile up while events keep coming, and
//! leave as one batch when the restartable timer at last expires.

use vstd::prelude::*;
use crate::types::MouseEvent;

verus! {

/// The quiet period after which a batch is flushed, in milliseconds.
pub const DEBOUNCE_DELAY_MS: i32 = 500;

/// What the caller has to do with its timers after a record was queued.
#[derive(Clone, Copy, Debug, PartialEq, Eq, Structural)]
pub struct TimerCommand {
    /// The handle of the timer to cancel, where one was armed before.
    pub cancel: Option<i32>,
    /// The delay of the single-shot timer to arm now.
    pub delay_ms: i32,
}

/// The records waiting for the next flush, oldest first, and the handle of
/// the timer armed last.
pub struct EventBuffer {
    pub events: Vec<MouseEvent>,
    pub timeout_handle: Option<i32>,
}

impl EventBuffer {
    /// A buffer with nothing queued and no timer armed.
    pub fn new() -> (b: EventBuffer)
        ensures
            b.events@.len() == 0,
            b.timeout_handle is None,
    {
        EventBuffer { events: Vec::new(), timeout_handle: None }
    }

    /// The buffer as the start of a course: what waits, and no batch handed
    /// out yet.
    pub open spec fn course(&self) -> BufferRun {
        BufferRun { pending: self.events@, batches: Seq::empty() }
    }

    /// The number of records waiting.
    pub fn len(&self) -> (n: usize)
        ensures
            n == self.events@.len(),
    {
        self.events.len()
    }

    /// Queues a record behind those waiting and restarts the timer: the
    /// timer armed before is to be cancelled and a new one armed.
    pub fn enqueue(&mut self, event: MouseEvent) -> (cmd: TimerCommand)
        ensures
            final(self).events@ == old(self).events@.push(event),
            final(self).timeout_handle == old(self).timeout_handle,
            cmd == (TimerCommand { cancel: old(self).timeout_handle, delay_ms: DEBOUNCE_DELAY_MS }),
            run_step(old(self).course(), BufferStep::Enqueue(event)) == final(self).course(),
    {
        self.events.push(event);
        TimerCommand { cancel: self.timeout_handle, delay_ms: DEBOUNCE_DELAY_MS }
    }

    /// Remembers the handle of the timer that was armed on a command of
    /// `enqueue`, so that the next record can cancel it.
    pub fn timer_armed(&mut self, handle: i32)
        ensures
            final(self).events@ == old(self).events@,
            final(self).timeout_handle == Some(handle),
    {
        self.timeout_handle = Some(handle);
    }

    /// The timer expired: drains every record waiting and hands them out as
    /// one batch, oldest first; nothing is handed out where none waited.
    pub fn timer_fired(&mut self) -> (batch: Option<Vec<MouseEvent>>)
        ensures
            final(self).events@.len() == 0,
            final(self).timeout_handle == old(self).timeout_handle,
            match batch {
                Some(b) => b@ == old(self).events@ && b@.len() > 0,
                None => old(self).events@.len() == 0,
            },
            run_step(old(self).course(), BufferStep::TimerFired) == (BufferRun {
                pending: final(self).events@,
                batches: match batch {
                    Some(b) => seq![b@],
                    None => Seq::empty(),
                },
            }),
    {
        let mut drained: Vec<MouseEvent> = Vec::new();
        core::mem::swap(&mut self.events, &mut drained);
        proof {
            assert(self.events@ =~= Seq::<MouseEvent>::empty());
            assert(Seq::<Seq<MouseEvent>>::empty().push(drained@) =~= seq![drained@]);
            if drained@.len() == 0 {
                assert(old(self).events@ =~= self.events@);
            }
        }
        if drained.len() > 0 {
            Some(drained)
        } else {
            None
        }
    }
}

/// What happens to a buffer: a record is queued, or its timer expires.
pub enum BufferStep {
    Enqueue(MouseEvent),
    TimerFired,
}

/// The course of a buffer: the records waiting, and the batches handed out
/// so far, in order.
pub struct BufferRun {
    pub pending: Seq<MouseEvent>,
    pub batches: Seq<Seq<MouseEvent>>,
}

/// One step of a buffer's course, as `enqueue` and `timer_fired` take it.
pub open spec fn run_step(r: BufferRun, step: BufferStep) -> BufferRun {
    match step {
        BufferStep::Enqueue(e) => BufferRun { pending: r.pending.push(e), batches: r.batches },
        BufferStep::TimerFired => if r.pending.len() > 0 {
            BufferRun { pending: Seq::empty(), batches: r.batches.push(r.pending) }
        } else {
            r
        },
    }
}

/// The course of a buffer after `steps`, in order.
pub open spec fn run(r0: BufferRun, steps: Seq<BufferStep>) -> BufferRun
    decreases steps.len(),
{
    if steps.len() == 0 {
        r0
    } else {
        run_step(run(r0, steps.drop_last()), steps.last())
    }
}

/// The records queued by `steps`, in order.
pub open spec fn enqueued(steps: Seq<BufferStep>) -> Seq<MouseEvent>
    decreases steps.len(),
{
    if steps.len() == 0 {
        Seq::empty()
    } else {
        match steps.last() {
            BufferStep::Enqueue(e) => enqueued(steps.drop_last()).push(e),
            BufferStep::TimerFired => enqueued(steps.drop_last()),
        }
    }
}

/// The records of `batches`, one batch after the other.
pub open spec fn concat_batches(batches: Seq<Seq<MouseEvent>>) -> Seq<MouseEvent>
    decreases batches.len(),
{
    if batches.len() == 0 {
        Seq::empty()
    } else {
        concat_batches(batches.drop_last()) + batches.last()
    }
}

/// The steps that queue each of `records`, in order, with no expiry between.
pub open spec fn burst(records: Seq<MouseEvent>) -> Seq<BufferStep> {
    Seq::new(records.len(), |i: int| BufferStep::Enqueue(records[i]))
}

/// Nothing is lost, doubled or reordered: the batches handed out, followed
/// by what still waits, are the records queued, in the order of queueing.
pub proof fn lemma_batches_keep_order(r0: BufferRun, steps: Seq<BufferStep>)
    ensures
        concat_batches(run(r0, steps).batches) + run(r0, steps).pending == concat_batches(r0.batches)
            + r0.pending + enqueued(steps),
        forall|i: int|
            0 <= i < r0.batches.len() && i < run(r0, steps).batches.len() ==> run(r0, steps).batches[i]
                == r0.batches[i],
        run(r0, steps).batches.len() >= r0.batches.len(),
    decreases steps.len(),
{
    if steps.len() == 0 {
        assert(concat_batches(r0.batches) + r0.pending + Seq::<MouseEvent>::empty()
            =~= concat_batches(r0.batches) + r0.pending);
    } else {
        let before = run(r0, steps.drop_last());
        let after = run(r0, steps);
        lemma_batches_keep_order(r0, steps.drop_last());
        match steps.last() {
            BufferStep::Enqueue(e) => {
                assert(concat_batches(after.batches) + after.pending =~= (concat_batches(
                    before.batches,
                ) + before.pending).push(e));
                assert((concat_batches(r0.batches) + r0.pending + enqueued(steps.drop_last())).push(
                    e,
                ) =~= concat_batches(r0.batches) + r0.pending + enqueued(steps));
            },
            BufferStep::TimerFired => {
                if before.pending.len() > 0 {
                    assert(after.batches.drop_last() =~= before.batches);
                    assert(concat_batches(after.batches) + after.pending =~= concat_batches(
                        before.batches,
                    ) + before.pending);
                }
            },
        }
    }
}

/// Records queued one after the other with no expiry between all wait
/// together, behind those that waited before, and no batch leaves meanwhile.
pub proof fn lemma_burst_accumulates(r0: BufferRun, records: Seq<MouseEvent>)
    ensures
        run(r0, burst(records)) == (BufferRun {
            pending: r0.pending + records,
            batches: r0.batches,
        }),
    decreases records.len(),
{
    let steps = burst(records);
    if records.len() == 0 {
        assert(r0.pending + records =~= r0.pending);
    } else {
        assert(steps.drop_last() =~= burst(records.drop_last()));
        lemma_burst_accumulates(r0, records.drop_last());
        assert((r0.pending + records.drop_last()).push(records.last()) =~= r0.pending + records);
    }
}

/// A burst of one or more records into an empty buffer, followed by one
/// expiry of the timer, sends exactly one batch: the records of the burst,
/// in order. Nothing waits afterwards, so the next batch holds only what is
/// queued after this flush.
pub proof fn lemma_burst_is_one_batch(sent: Seq<Seq<MouseEvent>>, records: Seq<MouseEvent>)
    requires
        records.len() > 0,
    ensures
        run(
            BufferRun { pending: Seq::empty(), batches: sent },
            burst(records).push(BufferStep::TimerFired),
        ) == (BufferRun { pending: Seq::empty(), batches: sent.push(records) }),
{
    let r0 = BufferRun { pending: Seq::empty(), batches: sent };
    let steps = burst(records).push(BufferStep::TimerFired);
    assert(steps.drop_last() =~= burst(records));
    lemma_burst_accumulates(r0, records);
    assert(Seq::<MouseEvent>::empty() + records =~= records);
}

/// An expiry of the timer with nothing waiting sends nothing.
pub proof fn lemma_idle_expiry_sends_nothing(r: BufferRun)
    requires
        r.pending.len() == 0,
    ensures
        run_step(r, BufferStep::TimerFired) == r,
{
}

/// A record and the time, in milliseconds, at which it is queued.
pub struct Arrival {
    pub at: u64,
    pub record: MouseEvent,
}

/// The records of `arrivals`, in order.
pub open spec fn records_of(arrivals: Seq<Arrival>) -> Seq<MouseEvent> {
    Seq::new(arrivals.len(), |i: int| arrivals[i].record)
}

/// Each of `records` as a batch of its own.
pub open spec fn singles(records: Seq<MouseEvent>) -> Seq<Seq<MouseEvent>> {
    Seq::new(records.len(), |i: int| seq![records[i]])
}

/// The time between the arrival at place `i` and the one before it.
pub open spec fn gap_before(arrivals: Seq<Arrival>, i: int) -> int {
    arrivals[i].at - arrivals[i - 1].at
}

/// The steps that a single-shot timer, cancelled and armed anew at every
/// arrival, makes of `arrivals` up to the last of them: the timer armed at
/// one arrival expires before the next exactly when the next comes the delay
/// or more later.
pub open spec fn arrival_steps(arrivals: Seq<Arrival>) -> Seq<BufferStep>
    decreases arrivals.len(),
{
    if arrivals.len() == 0 {
        Seq::empty()
    } else if arrivals.len() == 1 {
        seq![BufferStep::Enqueue(arrivals[0].record)]
    } else {
        let before = arrival_steps(arrivals.drop_last());
        let expired = if gap_before(arrivals, arrivals.len() - 1) >= DEBOUNCE_DELAY_MS {
            before.push(BufferStep::TimerFired)
        } else {
            before
        };
        expired.push(BufferStep::Enqueue(arrivals.last().record))
    }
}

/// The steps of `arrivals` and the expiry of the timer that the last of them
/// armed.
pub open spec fn debounced(arrivals: Seq<Arrival>) -> Seq<BufferStep> {
    arrival_steps(arrivals).push(BufferStep::TimerFired)
}

/// Records that arrive less than the delay after one another are queued
/// with no expiry between them.
pub proof fn lemma_quick_arrivals_are_a_burst(arrivals: Seq<Arrival>)
    requires
        forall|i: int| 1 <= i < arrivals.len() ==> #[trigger] gap_before(arrivals, i) < DEBOUNCE_DELAY_MS,
    ensures
        arrival_steps(arrivals) == burst(records_of(arrivals)),
    decreases arrivals.len(),
{
    if arrivals.len() <= 1 {
        assert(arrival_steps(arrivals) =~= burst(records_of(arrivals)));
    } else {
        let before = arrivals.drop_last();
        assert forall|i: int| 1 <= i < before.len() implies #[trigger] gap_before(before, i)
            < DEBOUNCE_DELAY_MS by {
            assert(gap_before(before, i) == gap_before(arrivals, i));
        }
        lemma_quick_arrivals_are_a_burst(before);
        assert(gap_before(arrivals, arrivals.len() - 1) < DEBOUNCE_DELAY_MS);
        assert(arrival_steps(arrivals) =~= burst(records_of(arrivals)));
    }
}

/// N records, each queued less than the delay after the one before, leave an
/// empty buffer as exactly one batch of N records, in order.
pub proof fn lemma_quick_arrivals_one_batch(sent: Seq<Seq<MouseEvent>>, arrivals: Seq<Arrival>)
    requires
        arrivals.len() > 0,
        forall|i: int| 1 <= i < arrivals.len() ==> #[trigger] gap_before(arrivals, i) < DEBOUNCE_DELAY_MS,
    ensures
        run(BufferRun { pending: Seq::empty(), batches: sent }, debounced(arrivals)) == (BufferRun {
            pending: Seq::empty(),
            batches: sent.push(records_of(arrivals)),
        }),
{
    lemma_quick_arrivals_are_a_burst(arrivals);
    lemma_burst_is_one_batch(sent, records_of(arrivals));
}

/// A course that takes one more step.
pub proof fn lemma_run_push(r0: BufferRun, steps: Seq<BufferStep>, step: BufferStep)
    ensures
        run(r0, steps.push(step)) == run_step(run(r0, steps), step),
{
    assert(steps.push(step).drop_last() =~= steps);
}

/// Records queued the delay or more apart have each been flushed before the
/// next arrives: after the last arrival only the last record waits.
pub proof fn lemma_spaced_arrivals_flush_between(sent: Seq<Seq<MouseEvent>>, arrivals: Seq<Arrival>)
    requires
        arrivals.len() > 0,
        forall|i: int| 1 <= i < arrivals.len() ==> #[trigger] gap_before(arrivals, i) >= DEBOUNCE_DELAY_MS,
    ensures
        run(BufferRun { pending: Seq::empty(), batches: sent }, arrival_steps(arrivals))
            == (BufferRun {
            pending: seq![arrivals.last().record],
            batches: sent + singles(records_of(arrivals.drop_last())),
        }),
    decreases arrivals.len(),
{
    let r0 = BufferRun { pending: Seq::empty(), batches: sent };
    if arrivals.len() == 1 {
        lemma_run_push(r0, Seq::empty(), BufferStep::Enqueue(arrivals[0].record));
        assert(arrival_steps(arrivals) =~= Seq::<BufferStep>::empty().push(
            BufferStep::Enqueue(arrivals[0].record),
        ));
        assert(Seq::<MouseEvent>::empty().push(arrivals[0].record) =~= seq![arrivals.last().record]);
        assert(sent + singles(records_of(arrivals.drop_last())) =~= sent);
    } else {
        let before = arrivals.drop_last();
        assert forall|i: int| 1 <= i < before.len() implies #[trigger] gap_before(before, i)
            >= DEBOUNCE_DELAY_MS by {
            assert(gap_before(before, i) == gap_before(arrivals, i));
        }
        lemma_spaced_arrivals_flush_between(sent, before);
        assert(gap_before(arrivals, arrivals.len() - 1) >= DEBOUNCE_DELAY_MS);
        let queued = arrival_steps(before);
        let expired = queued.push(BufferStep::TimerFired);
        let last = BufferStep::Enqueue(arrivals.last().record);
        assert(arrival_steps(arrivals) == expired.push(last));
        lemma_run_push(r0, queued, BufferStep::TimerFired);
        lemma_run_push(r0, expired, last);
        let waiting = run(r0, queued);
        assert(waiting.pending.len() == 1);
        let flushed = run_step(waiting, BufferStep::TimerFired);
        assert(flushed.pending =~= Seq::<MouseEvent>::empty());
        lemma_singles_push(sent, before);
        assert(flushed.batches == sent + singles(records_of(before)));
        assert(Seq::<MouseEvent>::empty().push(arrivals.last().record) =~= seq![
            arrivals.last().record,
        ]);
    }
}

/// The batches of one record each, of arrivals with one more at the end.
proof fn lemma_singles_push(sent: Seq<Seq<MouseEvent>>, arrivals: Seq<Arrival>)
    requires
        arrivals.len() > 0,
    ensures
        (sent + singles(records_of(arrivals.drop_last()))).push(seq![arrivals.last().record]) == sent
            + singles(records_of(arrivals)),
{
    let a = (sent + singles(records_of(arrivals.drop_last()))).push(seq![arrivals.last().record]);
    let b = sent + singles(records_of(arrivals));
    assert(a.len() == b.len());
    assert forall|i: int| 0 <= i < a.len() implies a[i] == b[i] by {
        if i >= sent.len() && i < a.len() - 1 {
            let j = i - sent.len();
            assert(arrivals.drop_last()[j] == arrivals[j]);
        }
    }
    assert(a =~= b);
}

/// N records, each queued the delay or more after the one before, leave an
/// empty buffer as N batches of one record each: every batch holds only what
/// was queued since the flush before it.
pub proof fn lemma_spaced_arrivals_separate_batches(
    sent: Seq<Seq<MouseEvent>>,
    arrivals: Seq<Arrival>,
)
    requires
        arrivals.len() > 0,
        forall|i: int| 1 <= i < arrivals.len() ==> #[trigger] gap_before(arrivals, i) >= DEBOUNCE_DELAY_MS,
    ensures
        run(BufferRun { pending: Seq::empty(), batches: sent }, debounced(arrivals)) == (BufferRun {
            pending: Seq::empty(),
            batches: sent + singles(records_of(arrivals)),
        }),
{
    let r0 = BufferRun { pending: Seq::empty(), batches: sent };
    lemma_spaced_arrivals_flush_between(sent, arrivals);
    lemma_run_push(r0, arrival_steps(arrivals), BufferStep::TimerFired);
    lemma_singles_push(sent, arrivals);
}

/// A course over two runs of steps is the course over the second run from
/// where the first run ended.
pub proof fn lemma_run_concat(r0: BufferRun, first: Seq<BufferStep>, second: Seq<BufferStep>)
    ensures
        run(r0, first + second) == run(run(r0, first), second),
    decreases second.len(),
{
    if second.len() == 0 {
        assert(first + second =~= first);
    } else {
        assert((first + second).drop_last() =~= first + second.drop_last());
        assert((first + second).last() == second.last());
        lemma_run_concat(r0, first, second.drop_last());
    }
}

/// Where further records start to arrive the delay or more after the last
/// of earlier ones, the timer expires between the two: the steps are those
/// of the earlier arrivals with their expiry, then those of the further ones.
pub proof fn lemma_arrival_steps_split(earlier: Seq<Arrival>, later: Seq<Arrival>)
    requires
        earlier.len() > 0,
        later.len() > 0,
        later[0].at - earlier.last().at >= DEBOUNCE_DELAY_MS,
    ensures
        arrival_steps(earlier + later) == debounced(earlier) + arrival_steps(later),
    decreases later.len(),
{
    let all = earlier + later;
    assert(all.last() == later.last());
    if later.len() == 1 {
        assert(all.drop_last() =~= earlier);
        assert(gap_before(all, all.len() - 1) == later[0].at - earlier.last().at);
        assert(arrival_steps(all) =~= debounced(earlier) + arrival_steps(later));
    } else {
        assert(all.drop_last() =~= earlier + later.drop_last());
        lemma_arrival_steps_split(earlier, later.drop_last());
        assert(all[all.len() - 2] == later[later.len() - 2]);
        assert(gap_before(all, all.len() - 1) == gap_before(later, later.len() - 1));
        assert(arrival_steps(all) =~= debounced(earlier) + arrival_steps(later));
    }
}

/// A group of records, each queued less than the delay after the one before,
/// that is followed the delay or more later by further records leaves as one
/// batch of its own, and the further records start from an empty buffer. So
/// arrivals of any spacing leave in one batch for each such group.
pub proof fn lemma_quiet_period_closes_a_batch(
    sent: Seq<Seq<MouseEvent>>,
    group: Seq<Arrival>,
    later: Seq<Arrival>,
)
    requires
        group.len() > 0,
        later.len() > 0,
        forall|i: int| 1 <= i < group.len() ==> #[trigger] gap_before(group, i) < DEBOUNCE_DELAY_MS,
        later[0].at - group.last().at >= DEBOUNCE_DELAY_MS,
    ensures
        run(BufferRun { pending: Seq::empty(), batches: sent }, debounced(group + later)) == run(
            BufferRun { pending: Seq::empty(), batches: sent.push(records_of(group)) },
            debounced(later),
        ),
{
    let r0 = BufferRun { pending: Seq::empty(), batches: sent };
    lemma_arrival_steps_split(group, later);
    assert(debounced(group + later) =~= debounced(group) + debounced(later));
    lemma_run_concat(r0, debounced(group), debounced(later));
    lemma_quick_arrivals_one_batch(sent, group);
}

} // verus!
