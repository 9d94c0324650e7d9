use mini_tokio::channel::ScheduleError;
use mini_tokio::executor::{
    wake, Action, Event, MiniTokio, PollOutcome, StopReason, SCHEDULE_CAPACITY,
};
use mini_tokio::watcher::{watch_step, WatchAction};

#[test]
fn new_executor_has_no_tasks() {
    let (mut mini, _rx) = MiniTokio::new();
    assert_eq!(mini.task_count(), 0);
    assert_eq!(mini.spawned(), 0);
    assert_eq!(mini.run_step(Event::Idle), Action::Stop(StopReason::AllTasksComplete));
}

#[test]
fn spawn_queues_ids_in_order() {
    let (mut mini, mut rx) = MiniTokio::new();
    assert_eq!(mini.spawn(), Ok(0));
    assert_eq!(mini.spawn(), Ok(1));
    assert_eq!(mini.spawn(), Ok(2));
    assert_eq!(mini.task_count(), 3);
    assert_eq!(mini.spawned(), 3);
    assert_eq!(rx.try_recv(), Ok(0));
    assert_eq!(rx.try_recv(), Ok(1));
    assert_eq!(rx.try_recv(), Ok(2));
    assert!(rx.try_recv().is_err());
}

#[test]
fn scheduled_task_is_polled() {
    let (mut mini, _rx) = MiniTokio::new();
    let id = mini.spawn().unwrap();
    assert_eq!(mini.run_step(Event::Scheduled(id)), Action::Poll(id));
    assert_eq!(mini.task_count(), 1);
}

#[test]
fn pending_task_keeps_future_and_count() {
    let (mut mini, _rx) = MiniTokio::new();
    let id = mini.spawn().unwrap();
    assert_eq!(mini.run_step(Event::Polled(id, PollOutcome::Pending)), Action::KeepFuture(id));
    assert_eq!(mini.task_count(), 1);
    assert_eq!(mini.run_step(Event::Scheduled(id)), Action::Poll(id));
}

#[test]
fn ready_task_is_released_once() {
    let (mut mini, _rx) = MiniTokio::new();
    let a = mini.spawn().unwrap();
    let b = mini.spawn().unwrap();
    assert_eq!(mini.run_step(Event::Polled(a, PollOutcome::Ready)), Action::DropFuture(a));
    assert_eq!(mini.task_count(), 1);
    // A late wake of a finished task finds no future.
    assert_eq!(mini.run_step(Event::Scheduled(a)), Action::Continue);
    // A second report of the same finish changes nothing.
    assert_eq!(mini.run_step(Event::Polled(a, PollOutcome::Ready)), Action::Continue);
    assert_eq!(mini.task_count(), 1);
    assert_eq!(mini.run_step(Event::Scheduled(b)), Action::Poll(b));
}

#[test]
fn unknown_task_id_is_ignored() {
    let (mut mini, _rx) = MiniTokio::new();
    mini.spawn().unwrap();
    assert_eq!(mini.run_step(Event::Scheduled(7)), Action::Continue);
    assert_eq!(mini.run_step(Event::Polled(7, PollOutcome::Ready)), Action::Continue);
    assert_eq!(mini.task_count(), 1);
}

#[test]
fn shutdown_stops_the_loop() {
    let (mut mini, _rx) = MiniTokio::new();
    mini.spawn().unwrap();
    assert_eq!(mini.run_step(Event::Shutdown), Action::Stop(StopReason::ShutdownRequested));
    assert_eq!(mini.task_count(), 1);
}

#[test]
fn closed_channel_stops_the_loop() {
    let (mut mini, _rx) = MiniTokio::new();
    assert_eq!(mini.run_step(Event::ChannelClosed), Action::Stop(StopReason::ChannelClosed));
}

#[test]
fn idle_with_outstanding_tasks_continues() {
    let (mut mini, _rx) = MiniTokio::new();
    let id = mini.spawn().unwrap();
    assert_eq!(mini.run_step(Event::Idle), Action::Continue);
    mini.run_step(Event::Polled(id, PollOutcome::Ready));
    assert_eq!(mini.run_step(Event::Idle), Action::Stop(StopReason::AllTasksComplete));
}

#[test]
fn full_queue_refuses_spawn_and_restores_count() {
    let (mut mini, _rx) = MiniTokio::new();
    for i in 0..SCHEDULE_CAPACITY {
        assert_eq!(mini.spawn(), Ok(i));
    }
    assert_eq!(mini.spawn(), Err(ScheduleError::Full(SCHEDULE_CAPACITY)));
    assert_eq!(mini.task_count(), SCHEDULE_CAPACITY);
    assert_eq!(mini.spawned(), SCHEDULE_CAPACITY + 1);
    assert_eq!(mini.run_step(Event::Scheduled(SCHEDULE_CAPACITY)), Action::Continue);
}

#[test]
fn closed_queue_refuses_spawn() {
    let (mut mini, rx) = MiniTokio::new();
    drop(rx);
    let r = mini.spawn();
    assert_eq!(r, Err(ScheduleError::Closed(0)));
    assert_eq!(r.unwrap_err().id(), 0);
    assert_eq!(mini.task_count(), 0);
    assert_eq!(mini.run_step(Event::Idle), Action::Stop(StopReason::AllTasksComplete));
}

#[test]
fn wake_requeues_the_task_id() {
    let (mut mini, mut rx) = MiniTokio::new();
    let id = mini.spawn().unwrap();
    assert_eq!(rx.try_recv(), Ok(id));
    let sender = mini.schedule_sender();
    assert_eq!(wake(&sender, id), Ok(id));
    assert_eq!(rx.try_recv(), Ok(id));
    assert_eq!(wake(&sender, 42), Ok(42));
    assert_eq!(rx.try_recv(), Ok(42));
}

#[test]
fn watcher_signals_only_at_zero() {
    assert_eq!(watch_step(0), WatchAction::SignalShutdown);
    assert_eq!(watch_step(1), WatchAction::KeepWaiting);
    assert_eq!(watch_step(3), WatchAction::KeepWaiting);
}

#[test]
fn three_tasks_run_to_completion_then_shutdown() {
    let (mut mini, mut rx) = MiniTokio::new();
    for _ in 0..3 {
        mini.spawn().unwrap();
    }
    assert_eq!(watch_step(mini.task_count()), WatchAction::KeepWaiting);
    // Each task is polled once, is not ready, and is woken later.
    for _ in 0..3 {
        let id = rx.try_recv().unwrap();
        assert_eq!(mini.run_step(Event::Scheduled(id)), Action::Poll(id));
        assert_eq!(mini.run_step(Event::Polled(id, PollOutcome::Pending)), Action::KeepFuture(id));
    }
    for id in [1usize, 0, 2] {
        assert_eq!(wake(&mini.schedule_sender(), id), Ok(id));
    }
    for expected in [1usize, 0, 2] {
        let id = rx.try_recv().unwrap();
        assert_eq!(id, expected);
        assert_eq!(mini.run_step(Event::Scheduled(id)), Action::Poll(id));
        assert_eq!(mini.run_step(Event::Polled(id, PollOutcome::Ready)), Action::DropFuture(id));
    }
    assert_eq!(mini.task_count(), 0);
    assert_eq!(watch_step(mini.task_count()), WatchAction::SignalShutdown);
    assert_eq!(mini.run_step(Event::Shutdown), Action::Stop(StopReason::ShutdownRequested));
}

#[test]
fn schedule_queue_has_the_stated_capacity() {
    let (mut mini, _rx) = MiniTokio::new();
    assert_eq!(mini.schedule_sender().max_capacity(), SCHEDULE_CAPACITY);
    mini.spawn().unwrap();
    assert_eq!(mini.schedule_sender().max_capacity(), SCHEDULE_CAPACITY);
}

#[test]
fn settle_spawn_follows_the_queue_answer() {
    let (mut mini, _rx) = MiniTokio::new();
    let a = mini.spawn().unwrap();
    let b = mini.spawn().unwrap();
    assert_eq!(mini.settle_spawn(Ok(a)), Ok(a));
    assert_eq!(mini.task_count(), 2);
    assert_eq!(mini.settle_spawn(Err(ScheduleError::Full(b))), Err(ScheduleError::Full(b)));
    assert_eq!(mini.task_count(), 1);
    assert_eq!(mini.run_step(Event::Scheduled(b)), Action::Continue);
    assert_eq!(mini.run_step(Event::Scheduled(a)), Action::Poll(a));
}

#[test]
fn wake_on_a_closed_queue_is_lost() {
    let (mini, rx) = MiniTokio::new();
    drop(rx);
    assert_eq!(wake(&mini.schedule_sender(), 3), Err(ScheduleError::Closed(3)));
}

#[test]
fn wake_on_a_full_queue_is_lost() {
    let (mut mini, _rx) = MiniTokio::new();
    for _ in 0..SCHEDULE_CAPACITY {
        mini.spawn().unwrap();
    }
    assert_eq!(wake(&mini.schedule_sender(), 0), Err(ScheduleError::Full(0)));
    assert_eq!(mini.task_count(), SCHEDULE_CAPACITY);
}
