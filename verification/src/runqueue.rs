//! The run queue: a lock-free MPSC intrusive stack of ready task nodes.
//!
//! Each task owns one run-queue node.  In hardware the node holds a next
//! pointer whose sentinel value means *not linked*; enqueueing is gated on
//! that sentinel, which makes redundant enqueues idempotent.  Here the queue
//! owns the nodes, indexed by a small integer, and the sentinel is the
//! node's `linked` flag.
//!
//! Draining happens in two phases, exactly as the executor exception does
//! it: the whole queue is taken at once into a batch, then the batch is
//! walked node by node.  A node's `linked` flag is cleared *before* its stub
//! runs, so a wakeup posted during the stub re-links the node into the live
//! queue and it is processed in the next drain.

use vstd::prelude::*;

verus! {

/// One task's run-queue node.  `linked` models whether the node's next
/// pointer differs from the sentinel, that is, whether the node currently
/// sits in the queue or in the batch being drained.
pub struct RunQueueNode {
    pub linked: bool,
}

impl RunQueueNode {
    /// A fresh node, not linked anywhere.
    pub fn new() -> (n: RunQueueNode)
        ensures
            !n.linked,
    {
        RunQueueNode { linked: false }
    }

    /// Whether the node is currently linked into the queue or the batch.
    pub fn is_linked(&self) -> (r: bool)
        ensures
            r == self.linked,
    {
        self.linked
    }
}

/// Abstract state of the run queue.
///
/// `pending` lists the nodes awaiting the next drain, in enqueue order (the
/// most recently enqueued node is last and will be run first: stack order).
/// `batch` lists the nodes taken by the drain in progress, the next one to
/// run last.  `capacity` is the number of node slots.
pub struct QueueModel {
    pub pending: Seq<usize>,
    pub batch: Seq<usize>,
    pub capacity: nat,
}

impl QueueModel {
    /// All nodes currently linked, batch first.
    pub open spec fn all_linked(self) -> Seq<usize> {
        self.batch + self.pending
    }

    /// Whether node `n` is linked (its next pointer is not the sentinel).
    pub open spec fn is_linked(self, n: usize) -> bool {
        self.all_linked().contains(n)
    }

    /// A queue state is well formed when every linked node names a real
    /// slot and no node is linked twice.
    pub open spec fn wf(self) -> bool {
        &&& forall|i: int|
            0 <= i < self.all_linked().len() ==> self.all_linked()[i] < self.capacity
        &&& forall|i: int, j: int|
            0 <= i < j < self.all_linked().len() ==> self.all_linked()[i] != self.all_linked()[j]
    }
}

/// The state reached by enqueueing node `n`: a no-op when `n` is already
/// linked, otherwise `n` is pushed onto the pending stack.
pub open spec fn spec_enqueue(q: QueueModel, n: usize) -> QueueModel {
    if q.is_linked(n) {
        q
    } else {
        QueueModel { pending: q.pending.push(n), batch: q.batch, capacity: q.capacity }
    }
}

/// The run queue, owning every task's node.
pub struct RunQueue {
    nodes: Vec<RunQueueNode>,
    pending: Vec<usize>,
    batch: Vec<usize>,
}

impl View for RunQueue {
    type V = QueueModel;

    closed spec fn view(&self) -> QueueModel {
        QueueModel {
            pending: self.pending@,
            batch: self.batch@,
            capacity: self.nodes@.len(),
        }
    }
}

impl RunQueue {
    /// The nodes' linked flags agree with membership in the queue or batch.
    pub closed spec fn wf(self) -> bool {
        &&& self@.wf()
        &&& self.nodes@.len() <= usize::MAX
        &&& forall|n: int|
            0 <= n < self.nodes@.len() ==> self.nodes@[n].linked == self@.is_linked(n as usize)
    }

    /// An empty queue with `capacity` node slots, one per task.
    pub fn new(capacity: usize) -> (q: RunQueue)
        ensures
            q.wf(),
            q@.pending =~= Seq::<usize>::empty(),
            q@.batch =~= Seq::<usize>::empty(),
            q@.capacity == capacity,
    {
        let mut nodes: Vec<RunQueueNode> = Vec::new();
        let mut i: usize = 0;
        while i < capacity
            invariant
                i <= capacity,
                nodes@.len() == i,
                forall|k: int| 0 <= k < i ==> !nodes@[k].linked,
            decreases capacity - i,
        {
            nodes.push(RunQueueNode::new());
            i = i + 1;
        }
        let q = RunQueue { nodes, pending: Vec::new(), batch: Vec::new() };
        proof {
            assert(q@.all_linked() =~= Seq::<usize>::empty());
        }
        q
    }

    /// Number of node slots.
    pub fn capacity(&self) -> (c: usize)
        ensures
            c == self@.capacity,
    {
        self.nodes.len()
    }

    /// Whether node `n` is currently linked.
    pub fn is_linked(&self, n: usize) -> (r: bool)
        requires
            self.wf(),
            n < self@.capacity,
        ensures
            r == self@.is_linked(n),
    {
        self.nodes[n].is_linked()
    }

    /// Enqueue node `n`, callable from any context.  Gated on the sentinel:
    /// if the node is already linked, nothing changes, so redundant wakeups
    /// are absorbed and a node is never queued twice.
    pub fn enqueue(&mut self, n: usize)
        requires
            old(self).wf(),
            n < old(self)@.capacity,
        ensures
            final(self).wf(),
            final(self)@ == spec_enqueue(old(self)@, n),
            final(self)@.is_linked(n),
    {
        if !self.nodes[n].is_linked() {
            self.nodes[n].linked = true;
            self.pending.push(n);
            proof {
                broadcast use vstd::seq_lib::lemma_seq_contains_after_push;

                let oldall = old(self)@.all_linked();
                let newall = self@.all_linked();
                let pushed = oldall.push(n);
                assert(newall =~= pushed);
                assert(newall.last() == n);
                assert forall|m: int|
                    0 <= m < self.nodes@.len() implies self.nodes@[m].linked == self@.is_linked(
                    m as usize,
                ) by {
                    let x = m as usize;
                    assert(old(self).nodes@[m].linked == old(self)@.is_linked(x));
                    assert(pushed.contains(x) == (x == n || oldall.contains(x)));
                    assert(newall.contains(x) == pushed.contains(x));
                }
                assert forall|i: int, j: int|
                    0 <= i < j < newall.len() implies newall[i] != newall[j] by {
                    if j == newall.len() - 1 {
                        assert(oldall[i] == newall[i]);
                        assert(oldall.contains(newall[i]));
                        assert(old(self)@.is_linked(newall[i]));
                        assert(old(self).nodes@[newall[i] as int].linked == old(
                            self,
                        )@.is_linked(newall[i]));
                    }
                }
            }
        } else {
            proof {
                assert(self@ =~= spec_enqueue(old(self)@, n)) by {
                    assert(self@ == old(self)@);
                }
            }
        }
    }

    /// Begin a drain: atomically take the whole pending queue as the batch,
    /// leaving the live queue empty.  Nodes enqueued from here on are seen
    /// by the *next* drain.
    pub fn start_drain(&mut self)
        requires
            old(self).wf(),
            old(self)@.batch.len() == 0,
        ensures
            final(self).wf(),
            final(self)@.batch =~= old(self)@.pending,
            final(self)@.pending =~= Seq::<usize>::empty(),
            final(self)@.capacity == old(self)@.capacity,
    {
        let mut taken: Vec<usize> = Vec::new();
        core::mem::swap(&mut taken, &mut self.pending);
        self.batch = taken;
        proof {
            assert(self@.all_linked() =~= old(self)@.all_linked());
            assert forall|m: int|
                0 <= m < self.nodes@.len() implies self.nodes@[m].linked == self@.is_linked(
                m as usize,
            ) by {
                assert(old(self).nodes@[m].linked == old(self)@.is_linked(m as usize));
                assert(self@.all_linked().contains(m as usize) == old(self)@.all_linked().contains(
                    m as usize,
                ));
            }
        }
    }

    /// Run one step of the drain: take the next node of the batch (most
    /// recently enqueued first) and clear its linked flag *before* its stub
    /// is invoked, so that the stub may legally re-enqueue the same node.
    /// Returns the node whose stub must now run, or nothing when the batch
    /// is exhausted.
    pub fn drain_next(&mut self) -> (r: Option<usize>)
        requires
            old(self).wf(),
        ensures
            final(self).wf(),
            old(self)@.batch.len() == 0 ==> r is None && final(self)@ == old(self)@,
            old(self)@.batch.len() > 0 ==> {
                &&& r == Some(old(self)@.batch.last())
                &&& final(self)@.batch =~= old(self)@.batch.drop_last()
                &&& final(self)@.pending =~= old(self)@.pending
                &&& final(self)@.capacity == old(self)@.capacity
                &&& !final(self)@.is_linked(old(self)@.batch.last())
            },
    {
        if self.batch.len() == 0 {
            proof {
                assert(self@ =~= old(self)@);
            }
            None
        } else {
            let ghost b = old(self)@.batch.len() - 1;
            let n = self.batch.pop().unwrap();
            proof {
                assert(old(self)@.all_linked()[b] == n);
            }
            self.nodes[n].linked = false;
            proof {
                let oldall = old(self)@.all_linked();
                let newall = self@.all_linked();
                let removed = oldall.remove(b);
                assert(newall =~= removed) by {
                    oldall.remove_ensures(b);
                }
                assert(oldall[b] == n);
                assert forall|m: int|
                    0 <= m < self.nodes@.len() implies self.nodes@[m].linked == self@.is_linked(
                    m as usize,
                ) by {
                    let x = m as usize;
                    assert(old(self).nodes@[m].linked == old(self)@.is_linked(x));
                    lemma_remove_contains(oldall, b, x);
                    assert(newall.contains(x) == removed.contains(x));
                    if m == n {
                        assert(!removed.contains(n));
                    } else {
                        assert(oldall.contains(x) ==> removed.contains(x));
                        assert(removed.contains(x) ==> oldall.contains(x));
                    }
                }
                assert forall|i: int, j: int|
                    0 <= i < j < newall.len() implies newall[i] != newall[j] by {
                    oldall.remove_ensures(b);
                    let i0: int = if i < b {
                        i
                    } else {
                        i + 1
                    };
                    let j0: int = if j < b {
                        j
                    } else {
                        j + 1
                    };
                    assert(newall[i] == oldall[i0]);
                    assert(newall[j] == oldall[j0]);
                }
                lemma_remove_contains(oldall, b, n);
                assert(!removed.contains(n));
                assert(newall.contains(n) == removed.contains(n));
            }
            Some(n)
        }
    }
}

/// How membership behaves when one index is removed from a duplicate-free
/// sequence.
proof fn lemma_remove_contains(s: Seq<usize>, i: int, x: usize)
    requires
        0 <= i < s.len(),
    ensures
        s.remove(i).contains(x) ==> s.contains(x),
        s.contains(x) && x != s[i] ==> s.remove(i).contains(x),
        (forall|p: int, q: int| 0 <= p < q < s.len() ==> s[p] != s[q]) && s[i] == x
            ==> !s.remove(i).contains(x),
{
    s.remove_ensures(i);
    let r = s.remove(i);
    if r.contains(x) {
        let w = choose|w: int| 0 <= w < r.len() && r[w] == x;
        if w < i {
            assert(s[w] == x);
        } else {
            assert(s[w + 1] == x);
        }
        if (forall|p: int, q: int| 0 <= p < q < s.len() ==> s[p] != s[q]) && s[i] == x {
            if w < i {
                assert(s[w] == s[i] && w != i);
            } else {
                assert(s[w + 1] == s[i] && w + 1 != i);
            }
            assert(false);
        }
    }
    if s.contains(x) && x != s[i] {
        let w = choose|w: int| 0 <= w < s.len() && s[w] == x;
        if w < i {
            assert(r[w] == x);
        } else {
            assert(w > i);
            assert(r[w - 1] == x);
        }
    }
}

/// Run-queue idempotence: enqueueing a node twice is the same as enqueueing
/// it once.  Together with well-formedness (a linked node appears exactly
/// once across queue and batch) this bounds each node to at most one stub
/// invocation per drain, and the enqueue contract (`is_linked` afterwards)
/// shows no enqueue is lost.
pub proof fn lemma_enqueue_idempotent(q: QueueModel, n: usize)
    ensures
        spec_enqueue(spec_enqueue(q, n), n) == spec_enqueue(q, n),
{
    let q1 = spec_enqueue(q, n);
    assert(q1.all_linked().contains(n)) by {
        if !q.is_linked(n) {
            assert(q1.all_linked()[q1.all_linked().len() - 1] == n);
        } else {
            let w = choose|w: int| 0 <= w < q.all_linked().len() && q.all_linked()[w] == n;
            assert(q1.all_linked()[w] == n);
        }
    }
}

/// Waker reentrancy: when the node taken by the drain in progress (so no
/// longer linked) wakes itself, it lands in the pending queue — polled in
/// the next drain — and not in the batch of the current one.
pub proof fn lemma_self_wake_runs_next_drain(q: QueueModel, n: usize)
    requires
        !q.is_linked(n),
    ensures
        spec_enqueue(q, n).pending.contains(n),
        !spec_enqueue(q, n).batch.contains(n),
{
    let q1 = spec_enqueue(q, n);
    assert(q1.pending.last() == n);
    assert(!q.batch.contains(n)) by {
        if q.batch.contains(n) {
            let w = choose|w: int| 0 <= w < q.batch.len() && q.batch[w] == n;
            assert(q.all_linked()[w] == n);
        }
    }
}

} // verus!
