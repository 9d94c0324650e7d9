//! The shutdown watcher: it looks at the executor's task count from time to
//! time and sends the shutdown signal once no task is outstanding.
use crate::executor::{live_count, next_action, Action, Event, StopReason};
use vstd::prelude::*;

verus! {

/// What the watcher does after reading the task count.
#[derive(Debug, Clone, Copy, PartialEq, Eq)]
pub enum WatchAction {
    /// Send the shutdown signal and stop watching.
    SignalShutdown,
    /// Sleep a little and look again.
    KeepWaiting,
}

/// The watcher's decision for a task count.
pub open spec fn watch_decision(task_count: nat) -> WatchAction {
    if task_count == 0 {
        WatchAction::SignalShutdown
    } else {
        WatchAction::KeepWaiting
    }
}

/// The watcher's decision for one reading of the task count.
pub fn watch_step(task_count: usize) -> (a: WatchAction)
    ensures
        a == watch_decision(task_count as nat),
{
    if task_count == 0 {
        WatchAction::SignalShutdown
    } else {
        WatchAction::KeepWaiting
    }
}

/// The watcher signals shutdown on a count exactly when the run loop, idle
/// with that many tasks outstanding, would stop because all tasks are done.
pub proof fn law_watcher_matches_idle_stop(held: Seq<bool>)
    ensures
        (watch_decision(live_count(held)) == WatchAction::SignalShutdown) <==> (next_action(
            held,
            Event::Idle,
        ) == Action::Stop(StopReason::AllTasksComplete)),
{
}

} // verus!
