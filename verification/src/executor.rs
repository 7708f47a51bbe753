//! The static task executor: per-task storage cells with their lifecycle
//! state machine, and the interrupt-to-task signal.
//!
//! A task's cell holds its root suspendable computation and a state word
//! drawn from Dead / Running / Polling.  The storage slot is initialized
//! exactly while the state is Running or Polling; while Polling the slot is
//! being driven on the current stack, so cancelling it there is a fatal
//! programming error.  The executor's poll entry performs the transitions
//! modelled by [`TaskStorage::poll_enter`] and [`TaskStorage::poll_exit`];
//! the computation itself is driven between the two.
//!
//! The interrupt signal holds at most one subscriber: the run-queue node of
//! the task awaiting it.  An ISR notifies the signal, which takes the
//! subscriber and enqueues that node.  Overlapping waits from two distinct
//! tasks are a programming error, which the checked entry points report.

use vstd::prelude::*;

use crate::runqueue::{spec_enqueue, RunQueue};
use crate::Fault;
use crate::Runtime;

verus! {

/// Lifecycle state of one task cell.
#[derive(Clone, Copy, PartialEq, Eq, Structural)]
pub enum TaskState {
    /// The storage slot is uninitialized; the task is not running.
    Dead,
    /// The slot holds a live computation awaiting its next poll.
    Running,
    /// The slot is being polled on the current stack right now.
    Polling,
}

/// Static storage cell for one task: the lifecycle word guarding the slot
/// that holds the task's root computation.  The computation itself lives
/// outside this model; the contracts here govern when it may exist and who
/// may drive it.
pub struct TaskStorage {
    state: TaskState,
}

impl View for TaskStorage {
    type V = TaskState;

    closed spec fn view(&self) -> TaskState {
        self.state
    }
}

impl TaskStorage {
    /// A fresh cell: no computation, state Dead.
    pub fn new() -> (t: TaskStorage)
        ensures
            t@ == TaskState::Dead,
    {
        TaskStorage { state: TaskState::Dead }
    }

    /// Whether the task currently holds a computation (spawned and not yet
    /// completed or cancelled).
    pub fn is_running(&self) -> (r: bool)
        ensures
            r == (self@ != TaskState::Dead),
    {
        match self.state {
            TaskState::Dead => false,
            TaskState::Running => true,
            TaskState::Polling => true,
        }
    }

    /// Cancel the task: drop the stored computation if there is one.  A task
    /// cannot cancel itself through its own handle, so the cell must not be
    /// in the middle of a poll.
    pub fn cancel(&mut self)
        requires
            old(self)@ != TaskState::Polling,
        ensures
            final(self)@ == TaskState::Dead,
    {
        self.state = TaskState::Dead;
    }

    /// Cancel, reporting the programming error instead of requiring its
    /// absence: cancelling a cell that is being polled fails and changes
    /// nothing; otherwise the cell ends up Dead.
    pub fn try_cancel(&mut self) -> (r: Result<(), Fault>)
        ensures
            old(self)@ == TaskState::Polling ==> r == Err::<(), Fault>(Fault::CancelWhilePolling)
                && final(self)@ == old(self)@,
            old(self)@ != TaskState::Polling ==> r == Ok::<(), Fault>(())
                && final(self)@ == TaskState::Dead,
    {
        match self.state {
            TaskState::Polling => Err(Fault::CancelWhilePolling),
            TaskState::Dead => Ok(()),
            TaskState::Running => {
                self.state = TaskState::Dead;
                Ok(())
            },
        }
    }

    /// Spawn a computation into the cell: cancel whatever was there, move
    /// the new computation in, and enqueue the task's run-queue node so the
    /// first poll happens in the next drain.
    pub fn spawn(&mut self, queue: &mut RunQueue, node: usize)
        requires
            old(self)@ != TaskState::Polling,
            old(queue).wf(),
            node < old(queue)@.capacity,
        ensures
            final(self)@ == TaskState::Running,
            final(queue).wf(),
            final(queue)@ == spec_enqueue(old(queue)@, node),
            final(queue)@.is_linked(node),
    {
        self.cancel();
        self.state = TaskState::Running;
        queue.enqueue(node);
    }

    /// Begin polling the task, as the stub invoked by the run queue does.
    /// Only a Running task is polled; it moves to Polling for the duration.
    /// A Dead cell (cancelled or never spawned) and a cell already being
    /// polled are left alone; a wakeup for the latter is absorbed into the
    /// poll in progress.
    pub fn poll_enter(&mut self) -> (polled: bool)
        ensures
            polled == (old(self)@ == TaskState::Running),
            polled ==> final(self)@ == TaskState::Polling,
            !polled ==> final(self)@ == old(self)@,
    {
        match self.state {
            TaskState::Running => {
                self.state = TaskState::Polling;
                true
            },
            TaskState::Dead => false,
            TaskState::Polling => false,
        }
    }

    /// Close the poll entry, after the computation was driven once: a
    /// completed computation is dropped in place and the cell dies; a
    /// pending one returns to Running.
    pub fn poll_exit(&mut self, ready: bool)
        requires
            old(self)@ == TaskState::Polling,
        ensures
            ready ==> final(self)@ == TaskState::Dead,
            !ready ==> final(self)@ == TaskState::Running,
    {
        if ready {
            self.state = TaskState::Dead;
        } else {
            self.state = TaskState::Running;
        }
    }
}

/// One-shot condition-wait signal wired to a specific ISR.  Holds at most
/// one subscriber: the run-queue node of the task awaiting it.
pub struct Interrupt {
    subscriber: Option<usize>,
}

impl View for Interrupt {
    type V = Option<usize>;

    closed spec fn view(&self) -> Option<usize> {
        self.subscriber
    }
}

impl Interrupt {
    /// A signal with no subscriber.
    pub fn new() -> (i: Interrupt)
        ensures
            i@ is None,
    {
        Interrupt { subscriber: None }
    }

    /// Record the awaiting task's run-queue node.  Overlapping waits on one
    /// signal from two distinct tasks are a programming error, so the slot
    /// must be free or already hold this very node.
    pub fn subscribe(&mut self, node: usize)
        requires
            old(self)@ is None || old(self)@ == Some(node),
        ensures
            final(self)@ == Some(node),
    {
        self.subscriber = Some(node);
    }

    /// Subscribe, reporting the programming error instead of requiring its
    /// absence: a signal already subscribed by a different task rejects the
    /// second wait and keeps its subscriber.
    pub fn try_subscribe(&mut self, node: usize) -> (r: Result<(), Fault>)
        ensures
            r is Err <==> (old(self)@ is Some && old(self)@ != Some(node)),
            r is Err ==> r == Err::<(), Fault>(Fault::SignalBusy) && final(self)@ == old(self)@,
            r is Ok ==> final(self)@ == Some(node),
    {
        match self.subscriber {
            Some(existing) if existing != node => Err(Fault::SignalBusy),
            _ => {
                self.subscriber = Some(node);
                Ok(())
            },
        }
    }

    /// Fire the signal from ISR context: take the subscriber, if any, and
    /// enqueue its node.  Notifying with no subscriber is ignored; the next
    /// wait re-checks its condition anyway.
    pub fn notify(&mut self, queue: &mut RunQueue)
        requires
            old(queue).wf(),
            old(self)@ matches Some(n) ==> n < old(queue)@.capacity,
        ensures
            final(self)@ is None,
            final(queue).wf(),
            old(self)@ matches Some(n) ==> final(queue)@ == spec_enqueue(old(queue)@, n)
                && final(queue)@.is_linked(n),
            old(self)@ is None ==> final(queue)@ == old(queue)@,
    {
        let taken = self.subscriber.take();
        match taken {
            Some(node) => queue.enqueue(node),
            None => {},
        }
    }

    /// One poll of an `until(condition)` wait by the task owning `node`.
    /// The condition's current value is evaluated by the caller and passed
    /// in.  If it holds, the wait completes and the signal is untouched;
    /// otherwise the task subscribes and reports pending.
    pub fn until(&mut self, condition: bool, node: usize) -> (ready: bool)
        requires
            old(self)@ is None || old(self)@ == Some(node),
        ensures
            ready == condition,
            condition ==> final(self)@ == old(self)@,
            !condition ==> final(self)@ == Some(node),
    {
        if condition {
            true
        } else {
            self.subscribe(node);
            false
        }
    }
}

impl Interrupt {
    /// One poll of an `until(condition)` wait, reporting the double-subscribe
    /// programming error instead of requiring its absence: a pending wait on
    /// a signal that a distinct task already awaits is rejected and changes
    /// nothing.  A wait whose condition already holds completes without
    /// touching the signal, whoever is subscribed.
    pub fn try_until(&mut self, condition: bool, node: usize) -> (r: Result<bool, Fault>)
        ensures
            r is Err <==> (!condition && old(self)@ is Some && old(self)@ != Some(node)),
            r is Err ==> r == Err::<bool, Fault>(Fault::SignalBusy) && final(self)@ == old(self)@,
            r matches Ok(ready) ==> ready == condition,
            r is Ok && condition ==> final(self)@ == old(self)@,
            r is Ok && !condition ==> final(self)@ == Some(node),
    {
        if condition {
            Ok(true)
        } else {
            match self.try_subscribe(node) {
                Ok(()) => Ok(false),
                Err(f) => Err(f),
            }
        }
    }
}

/// Wrapper making statically allocated, non-thread-safe state safe to share,
/// given the discipline that only task context dereferences it.  Reading
/// requires a [`Runtime`] token, which only exists in task context.
pub struct TaskOnly<T> {
    pub value: T,
}

impl<T> TaskOnly<T> {
    /// Wrap a value, committing it to task-context-only access.
    pub fn new(v: T) -> (t: TaskOnly<T>)
        ensures
            t.value == v,
    {
        TaskOnly { value: v }
    }

    /// Read the wrapped value; the token proves the caller is a task.
    pub fn get(&self, rt: Runtime) -> (r: &T)
        ensures
            *r == self.value,
    {
        let _ = rt;
        &self.value
    }
}


impl Interrupt {
    /// Whether some task currently awaits the signal.
    pub fn has_subscriber(&self) -> (r: bool)
        ensures
            r == (self@ is Some),
    {
        match self.subscriber {
            Some(_) => true,
            None => false,
        }
    }
}

} // verus!
