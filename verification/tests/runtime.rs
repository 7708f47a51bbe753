//! Run queue, task lifecycle and signal behavior.

use zeptos::executor::{Interrupt, TaskStorage};
use zeptos::runqueue::RunQueue;
use zeptos::Fault;

#[test]
fn enqueue_is_idempotent() {
    let mut q = RunQueue::new(3);
    q.enqueue(1);
    q.enqueue(1);
    q.enqueue(1);
    q.start_drain();
    // the node was linked once, so it runs once
    assert_eq!(q.drain_next(), Some(1));
    assert_eq!(q.drain_next(), None);
}

#[test]
fn drain_runs_nodes_in_stack_order() {
    let mut q = RunQueue::new(4);
    q.enqueue(2);
    q.enqueue(0);
    q.enqueue(3);
    q.start_drain();
    assert_eq!(q.drain_next(), Some(3));
    assert_eq!(q.drain_next(), Some(0));
    assert_eq!(q.drain_next(), Some(2));
    assert_eq!(q.drain_next(), None);
}

#[test]
fn enqueue_during_drain_lands_in_next_drain() {
    let mut q = RunQueue::new(2);
    q.enqueue(0);
    q.enqueue(1);
    q.start_drain();
    assert_eq!(q.drain_next(), Some(1));
    // node 1 wakes itself while its stub runs
    q.enqueue(1);
    assert!(q.is_linked(1));
    // the current drain finishes with the remaining snapshot only
    assert_eq!(q.drain_next(), Some(0));
    assert_eq!(q.drain_next(), None);
    // the self-wake is served by the next drain
    q.start_drain();
    assert_eq!(q.drain_next(), Some(1));
    assert_eq!(q.drain_next(), None);
}

#[test]
fn self_waking_task_is_polled_again_next_drain() {
    let mut q = RunQueue::new(1);
    let mut task = TaskStorage::new();
    assert!(!task.is_running());
    task.spawn(&mut q, 0);
    assert!(task.is_running());

    // first drain: the task polls and wakes itself exactly once
    q.start_drain();
    assert_eq!(q.drain_next(), Some(0));
    assert!(task.poll_enter());
    q.enqueue(0); // the waker fires during the poll
    task.poll_exit(false);
    // not polled again within this drain
    assert_eq!(q.drain_next(), None);

    // next drain: polled exactly once more
    q.start_drain();
    assert_eq!(q.drain_next(), Some(0));
    assert!(task.poll_enter());
    task.poll_exit(true);
    assert!(!task.is_running());
    assert_eq!(q.drain_next(), None);
}

#[test]
fn wakeup_for_polling_task_is_absorbed() {
    let mut q = RunQueue::new(1);
    let mut task = TaskStorage::new();
    task.spawn(&mut q, 0);
    q.start_drain();
    assert_eq!(q.drain_next(), Some(0));
    assert!(task.poll_enter());
    // a second poll attempt while polling is a no-op scheduling request
    assert!(!task.poll_enter());
    task.poll_exit(false);
    assert!(task.is_running());
}

#[test]
fn cancel_while_polling_is_a_fault() {
    let mut q = RunQueue::new(1);
    let mut task = TaskStorage::new();
    task.spawn(&mut q, 0);
    assert!(task.poll_enter());
    assert_eq!(task.try_cancel(), Err(Fault::CancelWhilePolling));
    // still running the poll; finishing it normally succeeds
    task.poll_exit(false);
    assert_eq!(task.try_cancel(), Ok(()));
    assert!(!task.is_running());
    // cancelling a dead task is a no-op
    assert_eq!(task.try_cancel(), Ok(()));
}

#[test]
fn spawn_into_live_slot_replaces_the_computation() {
    let mut q = RunQueue::new(1);
    let mut task = TaskStorage::new();
    task.spawn(&mut q, 0);
    assert!(task.is_running());
    // respawning cancels in place and enqueues again (idempotently)
    task.spawn(&mut q, 0);
    assert!(task.is_running());
    q.start_drain();
    assert_eq!(q.drain_next(), Some(0));
    assert_eq!(q.drain_next(), None);
}

#[test]
fn second_subscriber_is_rejected() {
    let mut sig = Interrupt::new();
    assert_eq!(sig.try_subscribe(1), Ok(()));
    // a concurrent wait by a distinct task is a programming error
    assert_eq!(sig.try_subscribe(2), Err(Fault::SignalBusy));
    // the same task may re-subscribe on every poll
    assert_eq!(sig.try_subscribe(1), Ok(()));
}

#[test]
fn notify_wakes_the_subscriber_once() {
    let mut q = RunQueue::new(2);
    let mut sig = Interrupt::new();
    // a satisfied condition completes without subscribing
    assert!(sig.until(true, 1));
    assert!(!sig.has_subscriber());
    // a pending condition subscribes
    assert!(!sig.until(false, 1));
    assert!(sig.has_subscriber());
    sig.notify(&mut q);
    assert!(!sig.has_subscriber());
    assert!(q.is_linked(1));
    // a notify with no subscriber is ignored
    sig.notify(&mut q);
    q.start_drain();
    assert_eq!(q.drain_next(), Some(1));
    assert_eq!(q.drain_next(), None);
}

#[test]
fn task_only_cell_reads_through_the_token() {
    let rt = zeptos::Runtime::steal();
    let cell = zeptos::executor::TaskOnly::new(7u32);
    assert_eq!(*cell.get(rt), 7);
}

#[test]
fn second_until_wait_is_rejected() {
    let mut sig = Interrupt::new();
    // task 1 starts waiting; its condition does not hold yet
    assert_eq!(sig.try_until(false, 1), Ok(false));
    // an overlapping wait by task 2 on the same signal is rejected
    assert_eq!(sig.try_until(false, 2), Err(Fault::SignalBusy));
    // task 2 with a condition that already holds completes without
    // subscribing, which is no overlap
    assert_eq!(sig.try_until(true, 2), Ok(true));
    // task 1 may keep polling its own wait
    assert_eq!(sig.try_until(false, 1), Ok(false));
}
