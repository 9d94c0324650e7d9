//! The executor: which spawned tasks still hold a future, how many are
//! outstanding, and what the run loop does with each thing that happens.
//!
//! Tasks are named by `usize` ids, the index at which `spawn` recorded them;
//! the schedule queue carries ids, and whoever drives the loop keeps the
//! futures and polls the one that `run_step` names.
use crate::channel::{
    clone_sender, queue_capacity, schedule_channel, try_schedule, ScheduleError, ScheduleReceipt,
};
use vstd::prelude::*;

verus! {

/// Capacity of the schedule queue.
pub const SCHEDULE_CAPACITY: usize = 1000;

/// What polling a task's future gave.
#[derive(Debug, Clone, Copy, PartialEq, Eq)]
pub enum PollOutcome {
    Pending,
    Ready,
}

/// What happened while the run loop waited.
#[derive(Debug, Clone, Copy, PartialEq, Eq)]
pub enum Event {
    /// The shutdown signal arrived (or its sender went away).
    Shutdown,
    /// A task id came off the schedule queue.
    Scheduled(usize),
    /// Every sender of the schedule queue is gone.
    ChannelClosed,
    /// Nothing could be waited on any more.
    Idle,
    /// The task's future was polled and gave this outcome.
    Polled(usize, PollOutcome),
}

/// Why the run loop stops.
#[derive(Debug, Clone, Copy, PartialEq, Eq)]
pub enum StopReason {
    ShutdownRequested,
    ChannelClosed,
    AllTasksComplete,
}

/// What the run loop does next.
#[derive(Debug, Clone, Copy, PartialEq, Eq)]
pub enum Action {
    /// Leave the loop.
    Stop(StopReason),
    /// Poll the task with this id.
    Poll(usize),
    /// The task is not finished: keep its future for a later wake.
    KeepFuture(usize),
    /// The task has finished: drop its future.
    DropFuture(usize),
    /// Nothing to do; wait again.
    Continue,
}

/// The task id that a schedule-queue answer names.
pub open spec fn sent_task(sent: Result<usize, ScheduleError>) -> usize {
    match sent {
        Ok(id) => id,
        Err(e) => e.task_id(),
    }
}

/// Number of tasks whose future is still held.
pub open spec fn live_count(held: Seq<bool>) -> nat
    decreases held.len(),
{
    if held.len() == 0 {
        0
    } else {
        live_count(held.drop_last()) + if held.last() {
            1nat
        } else {
            0nat
        }
    }
}

/// The task `id` was spawned and its future is still held.
pub open spec fn is_held(held: Seq<bool>, id: usize) -> bool {
    id < held.len() && held[id as int]
}

/// The action that the run loop takes on `ev`, given which futures are held.
pub open spec fn next_action(held: Seq<bool>, ev: Event) -> Action {
    match ev {
        Event::Shutdown => Action::Stop(StopReason::ShutdownRequested),
        Event::ChannelClosed => Action::Stop(StopReason::ChannelClosed),
        Event::Idle => if live_count(held) == 0 {
            Action::Stop(StopReason::AllTasksComplete)
        } else {
            Action::Continue
        },
        Event::Scheduled(id) => if is_held(held, id) {
            Action::Poll(id)
        } else {
            Action::Continue
        },
        Event::Polled(id, PollOutcome::Pending) => if is_held(held, id) {
            Action::KeepFuture(id)
        } else {
            Action::Continue
        },
        Event::Polled(id, PollOutcome::Ready) => if is_held(held, id) {
            Action::DropFuture(id)
        } else {
            Action::Continue
        },
    }
}

/// Which futures are held after the run loop handles `ev`: only a finished
/// poll releases one.
pub open spec fn next_held(held: Seq<bool>, ev: Event) -> Seq<bool> {
    match ev {
        Event::Polled(id, PollOutcome::Ready) => if is_held(held, id) {
            held.update(id as int, false)
        } else {
            held
        },
        _ => held,
    }
}

/// The executor's bookkeeping: the sending half of the schedule queue, for
/// each spawned task whether its future is still held, and the number of
/// outstanding tasks.
pub struct MiniTokio {
    scheduled_tx: tokio::sync::mpsc::Sender<usize>,
    held: Vec<bool>,
    task_count: usize,
    offered: Vec<ScheduleReceipt>,
}

impl View for MiniTokio {
    type V = Seq<bool>;

    closed spec fn view(&self) -> Seq<bool> {
        self.held@
    }
}

impl MiniTokio {
    /// The counter agrees with the table of held futures, and every spawned
    /// task's own id was offered, once, to this executor's schedule queue.
    pub closed spec fn wf(&self) -> bool {
        &&& self.counts_offers()
        &&& forall|i: int| 0 <= i < self.held@.len() ==> #[trigger] self.queued_if_held(i)
    }

    /// The counter agrees with the table of held futures, and every spawned
    /// task's own id was offered, once, to this executor's schedule queue.
    pub closed spec fn counts_offers(&self) -> bool {
        &&& self.task_count == live_count(self.held@)
        &&& self.offered@.len() == self.held@.len()
        &&& forall|i: int|
            0 <= i < self.offered@.len() ==> (#[trigger] self.offered@[i]).sender()
                == self.scheduled_tx && self.offered@[i].id() == i
    }

    /// If task `i` is held, the queue took its id.
    pub closed spec fn queued_if_held(&self, i: int) -> bool {
        self.held@[i] ==> self.offered@[i].accepted()
    }

    /// The offers made to the schedule queue, one per spawn in spawn order:
    /// the id offered and whether the queue took it.
    pub closed spec fn offers(&self) -> Seq<(usize, bool)> {
        self.offered@.map_values(|r: ScheduleReceipt| (r.id(), r.accepted()))
    }

    /// Capacity of the schedule queue that this executor sends task ids on.
    pub closed spec fn capacity(&self) -> nat {
        queue_capacity(self.scheduled_tx)
    }

    /// An executor with no tasks, and the receiving half of its schedule queue,
    /// which the run loop waits on; the queue holds up to `SCHEDULE_CAPACITY`
    /// ids.
    pub fn new() -> (r: (MiniTokio, tokio::sync::mpsc::Receiver<usize>))
        ensures
            r.0.wf(),
            r.0@ == Seq::<bool>::empty(),
            r.0.offers() == Seq::<(usize, bool)>::empty(),
            r.0.capacity() == SCHEDULE_CAPACITY,
    {
        let (tx, rx) = schedule_channel(SCHEDULE_CAPACITY);
        let r = MiniTokio { scheduled_tx: tx, held: Vec::new(), task_count: 0, offered: Vec::new() };
        assert(r.offers() =~= Seq::<(usize, bool)>::empty());
        (r, rx)
    }

    /// Records a new task under the next id, counts it, and puts its id on the
    /// schedule queue. If the queue refuses the id, the task is recorded as
    /// dropped and the count is restored (`settle_spawn` decides which).
    pub fn spawn(&mut self) -> (r: Result<usize, ScheduleError>)
        requires
            old(self).wf(),
            old(self)@.len() < usize::MAX,
        ensures
            final(self).wf(),
            final(self).capacity() == old(self).capacity(),
            match r {
                Ok(id) => id == old(self)@.len() && final(self)@ == old(self)@.push(true),
                Err(e) => e.task_id() == old(self)@.len() && final(self)@ == old(self)@.push(
                    false,
                ),
            },
            final(self).offers() == old(self).offers().push((old(self)@.len() as usize, r is Ok)),
    {
        let id = self.held.len();
        proof {
            lemma_live_count_push(self.held@, true);
            lemma_live_count_bounded(self.held@);
        }
        self.held.push(true);
        self.task_count = self.task_count + 1;
        let (sent, receipt) = try_schedule(&self.scheduled_tx, id);
        self.offered.push(receipt);
        proof {
            assert(self.offers() =~= old(self).offers().push((id, sent is Ok)));
            assert forall|i: int| 0 <= i < self.held@.len() && i != id implies #[trigger]
                self.queued_if_held(i) by {
                assert(old(self).queued_if_held(i));
                assert(self.held@[i] == old(self).held@[i]);
                assert(self.offered@[i] == old(self).offered@[i]);
            }
            assert forall|i: int| 0 <= i < self.offered@.len() implies (#[trigger] self.offered@[
                i
            ]).sender() == self.scheduled_tx && self.offered@[i].id() == i by {
                if i < id {
                    assert(self.offered@[i] == old(self).offered@[i]);
                }
            }
        }
        let r = self.settle_spawn(sent);
        proof {
            if r is Err {
                assert(self.held@ =~= old(self).held@.push(false));
            }
        }
        r
    }

    /// Settles a spawn by what the schedule queue answered for the held
    /// task it names: an accepted id leaves the task held and counted and is
    /// given back as `Ok`; a refused one drops the task, lowers the count by
    /// one and gives the queue's error back.
    pub fn settle_spawn(&mut self, sent: Result<usize, ScheduleError>) -> (r: Result<
        usize,
        ScheduleError,
    >)
        requires
            old(self).counts_offers(),
            is_held(old(self)@, sent_task(sent)),
            forall|i: int|
                0 <= i < old(self)@.len() && i != sent_task(sent) ==> #[trigger] old(
                    self,
                ).queued_if_held(i),
            sent is Ok ==> old(self).queued_if_held(sent_task(sent) as int),
        ensures
            final(self).wf(),
            final(self).capacity() == old(self).capacity(),
            r == sent,
            final(self).offers() == old(self).offers(),
            sent is Ok ==> final(self)@ == old(self)@,
            sent is Err ==> final(self)@ == old(self)@.update(sent_task(sent) as int, false),
            live_count(final(self)@) + (if sent is Ok {
                0nat
            } else {
                1nat
            }) == live_count(old(self)@),
    {
        match sent {
            Ok(id) => Ok(id),
            Err(e) => {
                let id = e.id();
                proof {
                    lemma_live_count_update(self.held@, id as int, false);
                }
                self.held.set(id, false);
                self.task_count = self.task_count - 1;
                proof {
                    assert forall|i: int| 0 <= i < self.held@.len() implies #[trigger]
                        self.queued_if_held(i) by {
                        if i != id {
                            assert(old(self).queued_if_held(i));
                        }
                    }
                }
                Err(e)
            },
        }
    }

    /// Handles one event of the run loop and says what to do next. A task
    /// whose poll finished is released and no longer counted; a task id
    /// whose future is gone is ignored.
    pub fn run_step(&mut self, ev: Event) -> (a: Action)
        requires
            old(self).wf(),
        ensures
            final(self).wf(),
            final(self).capacity() == old(self).capacity(),
            final(self).offers() == old(self).offers(),
            a == next_action(old(self)@, ev),
            final(self)@ == next_held(old(self)@, ev),
    {
        match ev {
            Event::Shutdown => Action::Stop(StopReason::ShutdownRequested),
            Event::ChannelClosed => Action::Stop(StopReason::ChannelClosed),
            Event::Idle => {
                if self.task_count == 0 {
                    Action::Stop(StopReason::AllTasksComplete)
                } else {
                    Action::Continue
                }
            },
            Event::Scheduled(id) => {
                if id < self.held.len() && self.held[id] {
                    Action::Poll(id)
                } else {
                    Action::Continue
                }
            },
            Event::Polled(id, outcome) => {
                if id < self.held.len() && self.held[id] {
                    match outcome {
                        PollOutcome::Pending => Action::KeepFuture(id),
                        PollOutcome::Ready => {
                            proof {
                                lemma_live_count_update(self.held@, id as int, false);
                            }
                            self.held.set(id, false);
                            self.task_count = self.task_count - 1;
                            proof {
                                assert forall|i: int| 0 <= i < self.held@.len() implies #[trigger]
                                    self.queued_if_held(i) by {
                                    assert(old(self).queued_if_held(i));
                                }
                            }
                            Action::DropFuture(id)
                        },
                    }
                } else {
                    Action::Continue
                }
            },
        }
    }

    /// Number of outstanding tasks: spawned, queued, and not finished.
    pub fn task_count(&self) -> (r: usize)
        requires
            self.wf(),
        ensures
            r == live_count(self@),
    {
        self.task_count
    }

    /// Number of tasks spawned so far, finished or not; the next spawn gets
    /// this id.
    pub fn spawned(&self) -> (r: usize)
        ensures
            r == self@.len(),
    {
        self.held.len()
    }

    /// Another handle to the schedule queue, for waking tasks.
    pub fn schedule_sender(&self) -> (r: tokio::sync::mpsc::Sender<usize>)
        ensures
            queue_capacity(r) == self.capacity(),
    {
        clone_sender(&self.scheduled_tx)
    }
}

/// Puts the task's id back on the schedule queue so that the run loop polls
/// it again. When the queue is full or closed the wake is lost, as it is in
/// the executor's waker; the result says which happened and names the id
/// that was offered.
pub fn wake(sender: &tokio::sync::mpsc::Sender<usize>, id: usize) -> (r: Result<
    usize,
    ScheduleError,
>)
    ensures
        r matches Ok(v) ==> v == id,
        r matches Err(e) ==> e.task_id() == id,
{
    let (r, _) = try_schedule(sender, id);
    r
}

/// Appending a task adds one to the count exactly when its future is held.
pub proof fn lemma_live_count_push(held: Seq<bool>, b: bool)
    ensures
        live_count(held.push(b)) == live_count(held) + if b {
            1nat
        } else {
            0nat
        },
{
    assert(held.push(b).drop_last() =~= held);
}

/// No more tasks are outstanding than were ever spawned.
pub proof fn lemma_live_count_bounded(held: Seq<bool>)
    ensures
        live_count(held) <= held.len(),
    decreases held.len(),
{
    if held.len() > 0 {
        lemma_live_count_bounded(held.drop_last());
    }
}

/// Changing one task's entry changes the count by the difference of the
/// two entries.
pub proof fn lemma_live_count_update(held: Seq<bool>, i: int, b: bool)
    requires
        0 <= i < held.len(),
    ensures
        live_count(held.update(i, b)) + (if held[i] {
            1nat
        } else {
            0nat
        }) == live_count(held) + (if b {
            1nat
        } else {
            0nat
        }),
    decreases held.len(),
{
    let u = held.update(i, b);
    if i == held.len() - 1 {
        assert(u.drop_last() =~= held.drop_last());
    } else {
        lemma_live_count_update(held.drop_last(), i, b);
        assert(u.drop_last() =~= held.drop_last().update(i, b));
    }
}

/// No task is outstanding exactly when no spawned task still holds its
/// future.
pub proof fn lemma_no_live_task(held: Seq<bool>)
    ensures
        live_count(held) == 0 <==> forall|i: int| 0 <= i < held.len() ==> !#[trigger] held[i],
    decreases held.len(),
{
    if held.len() > 0 {
        let rest = held.drop_last();
        lemma_no_live_task(rest);
        if live_count(held) == 0 {
            assert forall|i: int| 0 <= i < held.len() implies !#[trigger] held[i] by {
                if i < rest.len() {
                    assert(held[i] == rest[i]);
                }
            }
        } else {
            if !held.last() {
                let j = choose|j: int| 0 <= j < rest.len() && #[trigger] rest[j];
                assert(held[j] == rest[j]);
            }
        }
    }
}

/// A task finishes at most once: the event of its finished poll releases it
/// and lowers the count by one; afterwards a wake of it is ignored and a
/// second such event changes nothing.
pub proof fn law_task_finishes_once(held: Seq<bool>, id: usize)
    requires
        is_held(held, id),
    ensures
        ({
            let after = next_held(held, Event::Polled(id, PollOutcome::Ready));
            &&& next_action(held, Event::Polled(id, PollOutcome::Ready)) == Action::DropFuture(id)
            &&& live_count(after) + 1 == live_count(held)
            &&& !is_held(after, id)
            &&& next_action(after, Event::Scheduled(id)) == Action::Continue
            &&& next_action(after, Event::Polled(id, PollOutcome::Ready)) == Action::Continue
            &&& next_held(after, Event::Polled(id, PollOutcome::Ready)) == after
        }),
{
    lemma_live_count_update(held, id as int, false);
}

/// A task that is not finished keeps its future and its place in the count,
/// and is polled again when it is woken.
pub proof fn law_pending_task_stays(held: Seq<bool>, id: usize)
    requires
        is_held(held, id),
    ensures
        next_action(held, Event::Polled(id, PollOutcome::Pending)) == Action::KeepFuture(id),
        next_held(held, Event::Polled(id, PollOutcome::Pending)) == held,
        next_action(held, Event::Scheduled(id)) == Action::Poll(id),
{
}

/// Only a finished poll of a held task changes the table: every other event
/// leaves it as it is, and no event adds a task or raises the count.
pub proof fn law_only_finished_polls_release(held: Seq<bool>, ev: Event)
    ensures
        next_held(held, ev).len() == held.len(),
        live_count(next_held(held, ev)) <= live_count(held),
        !(ev matches Event::Polled(id, PollOutcome::Ready) && is_held(held, id)) ==> next_held(
            held,
            ev,
        ) == held,
{
    if let Event::Polled(id, PollOutcome::Ready) = ev {
        if is_held(held, id) {
            lemma_live_count_update(held, id as int, false);
        }
    }
}

/// The run loop stops on the shutdown signal, on a closed queue, and when it
/// is idle with every task finished; on nothing else.
pub proof fn law_when_the_loop_stops(held: Seq<bool>, ev: Event)
    ensures
        next_action(held, ev) is Stop <==> (ev is Shutdown || ev is ChannelClosed || (ev is Idle
            && forall|i: int| 0 <= i < held.len() ==> !#[trigger] held[i])),
{
    lemma_no_live_task(held);
}

/// A spawned task is counted only when its id was queued: an accepted spawn
/// adds one to the count, a refused one leaves it unchanged.
pub proof fn law_spawn_counts(held: Seq<bool>)
    requires
        held.len() < usize::MAX,
    ensures
        live_count(held.push(true)) == live_count(held) + 1,
        live_count(held.push(false)) == live_count(held),
        is_held(held.push(true), held.len() as usize),
        !is_held(held.push(false), held.len() as usize),
{
    lemma_live_count_push(held, true);
    lemma_live_count_push(held, false);
}

/// The table after the run loop has handled each of `evs` in turn.
pub open spec fn held_after(held: Seq<bool>, evs: Seq<Event>) -> Seq<bool>
    decreases evs.len(),
{
    if evs.len() == 0 {
        held
    } else {
        next_held(held_after(held, evs.drop_last()), evs.last())
    }
}

/// However many events the run loop handles, without a spawn in between the
/// count of outstanding tasks never rises, no task is added, and a task that
/// was not held never becomes held again.
pub proof fn law_loop_never_raises_count(held: Seq<bool>, evs: Seq<Event>)
    ensures
        held_after(held, evs).len() == held.len(),
        live_count(held_after(held, evs)) <= live_count(held),
        forall|i: int|
            0 <= i < held.len() && !held[i] ==> !#[trigger] held_after(held, evs)[i],
    decreases evs.len(),
{
    if evs.len() > 0 {
        let mid = held_after(held, evs.drop_last());
        law_loop_never_raises_count(held, evs.drop_last());
        law_only_finished_polls_release(mid, evs.last());
        assert forall|i: int| 0 <= i < held.len() && !held[i] implies !#[trigger] held_after(
            held,
            evs,
        )[i] by {
            assert(!mid[i]);
        }
    }
}

/// Every spawned task had exactly its own id offered to the executor's
/// queue, in spawn order, and a task that is still counted as outstanding
/// had that id accepted by the queue.
pub proof fn law_counted_tasks_were_queued(m: MiniTokio)
    requires
        m.wf(),
    ensures
        m.offers().len() == m@.len(),
        forall|i: int| 0 <= i < m@.len() ==> (#[trigger] m.offers()[i]).0 == i,
        forall|i: int| 0 <= i < m@.len() && #[trigger] m@[i] ==> m.offers()[i].1,
{
    assert forall|i: int| 0 <= i < m@.len() && #[trigger] m@[i] implies m.offers()[i].1 by {
        assert(m.queued_if_held(i));
    }
}

/// An id whose future is not held (never spawned, refused by the queue, or
/// already finished) is ignored: waking it, or any poll report for it, is
/// answered `Continue` and changes nothing.
pub proof fn law_unheld_ids_are_ignored(held: Seq<bool>, id: usize)
    requires
        !is_held(held, id),
    ensures
        next_action(held, Event::Scheduled(id)) == Action::Continue,
        next_action(held, Event::Polled(id, PollOutcome::Pending)) == Action::Continue,
        next_action(held, Event::Polled(id, PollOutcome::Ready)) == Action::Continue,
        next_held(held, Event::Scheduled(id)) == held,
        next_held(held, Event::Polled(id, PollOutcome::Pending)) == held,
        next_held(held, Event::Polled(id, PollOutcome::Ready)) == held,
{
}

/// Every action that names a task names the task of the event, and only a
/// task whose future is held: the loop polls, keeps or drops nothing else.
pub proof fn law_actions_name_held_tasks(held: Seq<bool>, ev: Event)
    ensures
        next_action(held, ev) matches Action::Poll(i) ==> is_held(held, i) && ev == Event::Scheduled(
            i,
        ),
        next_action(held, ev) matches Action::KeepFuture(i) ==> is_held(held, i) && ev
            == Event::Polled(i, PollOutcome::Pending),
        next_action(held, ev) matches Action::DropFuture(i) ==> is_held(held, i) && ev
            == Event::Polled(i, PollOutcome::Ready),
{
}

} // verus!
