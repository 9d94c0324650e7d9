//! A spawner for local tasks, run one after another on the calling thread.
//! Each task adds one to its number and sends the sum back over a one-shot
//! channel.
use crate::channel::{send_reply, SendReceipt};
use vstd::prelude::*;

verus! {

/// A task for the local spawner.
pub enum LocalTask {
    /// Answer `n + 1` on the sender.
    AddOne(i32, tokio::sync::oneshot::Sender<i32>),
}

impl LocalTask {
    /// The number that the task adds one to.
    pub open spec fn input(self) -> i32 {
        match self {
            LocalTask::AddOne(n, _) => n,
        }
    }

    /// The sender that the task's answer goes to.
    pub open spec fn sender(self) -> tokio::sync::oneshot::Sender<i32> {
        match self {
            LocalTask::AddOne(_, tx) => tx,
        }
    }
}

/// The numbers of the queued tasks, in queue order.
pub open spec fn inputs(queue: Seq<LocalTask>) -> Seq<i32> {
    queue.map_values(|t: LocalTask| t.input())
}

/// The sends that running a queue makes, in order: the most recently
/// spawned task runs first, and its own sender is handed its number plus one.
pub open spec fn sends_for(queue: Seq<LocalTask>) -> Seq<(tokio::sync::oneshot::Sender<i32>, i32)>
    decreases queue.len(),
{
    if queue.len() == 0 {
        Seq::empty()
    } else {
        seq![(queue.last().sender(), (queue.last().input() + 1) as i32)] + sends_for(
            queue.drop_last(),
        )
    }
}

/// Every queued number can be incremented without overflow.
pub open spec fn all_incrementable(queue: Seq<i32>) -> bool {
    forall|i: int| 0 <= i < queue.len() ==> #[trigger] queue[i] < i32::MAX
}

/// The tasks waiting to run, oldest first.
pub struct LocalSpawner {
    queue: Vec<LocalTask>,
}

impl View for LocalSpawner {
    type V = Seq<LocalTask>;

    closed spec fn view(&self) -> Seq<LocalTask> {
        self.queue@
    }
}

impl LocalSpawner {
    /// A spawner with nothing queued.
    pub fn new() -> (r: LocalSpawner)
        ensures
            r@ == Seq::<LocalTask>::empty(),
    {
        LocalSpawner { queue: Vec::new() }
    }

    /// Queues a task, with its sender, behind the ones already queued.
    pub fn spawn(&mut self, t: LocalTask)
        ensures
            final(self)@ == old(self)@.push(t),
    {
        self.queue.push(t);
    }

    /// Whether `run` can answer every queued task: no queued number is
    /// `i32::MAX`, whose increment overflows.
    pub fn can_run(&self) -> (r: bool)
        ensures
            r == all_incrementable(inputs(self@)),
    {
        let mut i: usize = 0;
        while i < self.queue.len()
            invariant
                i <= self.queue.len(),
                forall|j: int| 0 <= j < i ==> #[trigger] inputs(self@)[j] < i32::MAX,
            decreases self.queue.len() - i,
        {
            let n = match &self.queue[i] {
                LocalTask::AddOne(n, _) => *n,
            };
            assert(inputs(self@)[i as int] == n);
            if n == i32::MAX {
                return false;
            }
            i = i + 1;
        }
        true
    }

    /// Takes the newest queued task and gives its own sender together with
    /// the answer owed on it, its number plus one; `None` when nothing is
    /// queued.
    pub fn pop_reply(&mut self) -> (r: Option<(tokio::sync::oneshot::Sender<i32>, i32)>)
        requires
            all_incrementable(inputs(old(self)@)),
        ensures
            old(self)@.len() == 0 ==> r is None && final(self)@ == old(self)@,
            old(self)@.len() > 0 ==> r == Some(
                (old(self)@.last().sender(), (old(self)@.last().input() + 1) as i32),
            ) && final(self)@ == old(self)@.drop_last(),
    {
        match self.queue.pop() {
            None => None,
            Some(task) => {
                assert(inputs(old(self)@)[old(self)@.len() - 1] < i32::MAX);
                match task {
                    LocalTask::AddOne(n, tx) => Some((tx, n + 1)),
                }
            },
        }
    }

    /// Runs every queued task, newest first, until the queue is empty: each
    /// task's own sender is handed its number plus one, whether or not its
    /// receiver is still there. The result holds the receipts of the sends,
    /// in the order they were made.
    pub fn run(&mut self) -> (receipts: Vec<SendReceipt>)
        requires
            all_incrementable(inputs(old(self)@)),
        ensures
            final(self)@ == Seq::<LocalTask>::empty(),
            receipts@.map_values(|r: SendReceipt| r.sent()) == sends_for(old(self)@),
    {
        let mut receipts: Vec<SendReceipt> = Vec::new();
        while self.queue.len() > 0
            invariant
                all_incrementable(inputs(self@)),
                receipts@.map_values(|r: SendReceipt| r.sent()) + sends_for(self@) == sends_for(
                    old(self)@,
                ),
            decreases self.queue.len(),
        {
            let ghost before = self@;
            let ghost done = receipts@.map_values(|r: SendReceipt| r.sent());
            let (tx, reply) = self.pop_reply().unwrap();
            proof {
                assert(inputs(self@) =~= inputs(before).drop_last());
                assert(sends_for(before) == seq![(tx, reply)] + sends_for(self@));
                assert forall|j: int| 0 <= j < inputs(self@).len() implies #[trigger] inputs(
                    self@,
                )[j] < i32::MAX by {
                    assert(inputs(self@)[j] == inputs(before)[j]);
                }
            }
            let (_, receipt) = send_reply(tx, reply);
            receipts.push(receipt);
            proof {
                assert(receipts@.map_values(|r: SendReceipt| r.sent()) =~= done.push((tx, reply)));
                assert(done.push((tx, reply)) + sends_for(self@) =~= done + (seq![(tx, reply)]
                    + sends_for(self@)));
            }
        }
        assert(self@ =~= Seq::<LocalTask>::empty());
        assert(receipts@.map_values(|r: SendReceipt| r.sent()) =~= receipts@.map_values(
            |r: SendReceipt| r.sent(),
        ) + sends_for(self@));
        receipts
    }
}

/// Running a queue answers every task exactly once, newest first: the send
/// at position `i` hands the task `i` places from the end its own sender and
/// its number plus one.
pub proof fn law_sends_newest_first(queue: Seq<LocalTask>)
    requires
        all_incrementable(inputs(queue)),
    ensures
        sends_for(queue).len() == queue.len(),
        forall|i: int|
            0 <= i < queue.len() ==> #[trigger] sends_for(queue)[i] == (
                queue[queue.len() - 1 - i].sender(),
                (queue[queue.len() - 1 - i].input() + 1) as i32,
            ),
        forall|i: int|
            0 <= i < queue.len() ==> #[trigger] sends_for(queue)[i].1 == queue[queue.len() - 1
                - i].input() + 1,
    decreases queue.len(),
{
    if queue.len() > 0 {
        let rest = queue.drop_last();
        assert(inputs(rest) =~= inputs(queue).drop_last());
        assert(all_incrementable(inputs(rest))) by {
            assert forall|i: int| 0 <= i < inputs(rest).len() implies #[trigger] inputs(rest)[i]
                < i32::MAX by {
                assert(inputs(rest)[i] == inputs(queue)[i]);
            }
        }
        law_sends_newest_first(rest);
        assert(inputs(queue)[queue.len() - 1] < i32::MAX);
        assert forall|i: int| 0 <= i < queue.len() implies #[trigger] sends_for(queue)[i] == (
            queue[queue.len() - 1 - i].sender(),
            (queue[queue.len() - 1 - i].input() + 1) as i32,
        ) by {
            if i > 0 {
                assert(sends_for(queue)[i] == sends_for(rest)[i - 1]);
                assert(rest[rest.len() - 1 - (i - 1)] == queue[queue.len() - 1 - i]);
            }
        }
        assert forall|i: int| 0 <= i < queue.len() implies #[trigger] sends_for(queue)[i].1
            == queue[queue.len() - 1 - i].input() + 1 by {
            assert(inputs(queue)[queue.len() - 1 - i] == queue[queue.len() - 1 - i].input());
            assert(inputs(queue)[queue.len() - 1 - i] < i32::MAX);
            assert(sends_for(queue)[i] == (
                queue[queue.len() - 1 - i].sender(),
                (queue[queue.len() - 1 - i].input() + 1) as i32,
            ));
        }
    }
}

/// Running twice is running once: after a run the queue is empty, so a
/// second run is owed nothing, may always be made, and sends nothing.
pub proof fn law_second_run_sends_nothing()
    ensures
        all_incrementable(inputs(Seq::<LocalTask>::empty())),
        sends_for(Seq::<LocalTask>::empty()) == Seq::<(tokio::sync::oneshot::Sender<i32>, i32)>::empty(),
{
}

/// The spawner can run its queue exactly when every queued number plus one
/// fits in an `i32`: only `i32::MAX` is refused, whatever its sign, every
/// other number is allowed.
pub proof fn law_can_run_exactly_without_overflow(queue: Seq<LocalTask>)
    ensures
        all_incrementable(inputs(queue)) <==> forall|i: int|
            0 <= i < queue.len() ==> #[trigger] queue[i].input() + 1 <= i32::MAX,
        all_incrementable(inputs(queue)) <==> forall|i: int|
            0 <= i < queue.len() ==> #[trigger] queue[i].input() != i32::MAX,
{
    assert forall|i: int| 0 <= i < queue.len() implies #[trigger] inputs(queue)[i]
        == queue[i].input() by {}
    if all_incrementable(inputs(queue)) {
        assert forall|i: int| 0 <= i < queue.len() implies #[trigger] queue[i].input() + 1
            <= i32::MAX by {
            assert(inputs(queue)[i] < i32::MAX);
        }
    }
    if forall|i: int| 0 <= i < queue.len() ==> #[trigger] queue[i].input() != i32::MAX {
        assert forall|i: int| 0 <= i < inputs(queue).len() implies #[trigger] inputs(queue)[i]
            < i32::MAX by {
            assert(queue[i].input() != i32::MAX);
        }
    }
}

} // verus!
