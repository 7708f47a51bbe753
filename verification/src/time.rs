//! The monotonic clock and its wrap-aware ordering.
//!
//! The system clock is a free-running microsecond counter modulo 2^32.
//! Two instants are compared with the half-range rule: `a` is before `b`
//! exactly when the wrapped distance from `a` to `b` is strictly under
//! half the counter range.

use vstd::prelude::*;

verus! {

/// The full range of the 32-bit microsecond counter.
pub const TICK_RANGE: u64 = 0x1_0000_0000;

/// Half of the counter range; the boundary of the wrap-aware order.
pub const TICK_HALF_RANGE: u64 = 0x8000_0000;

/// Wrapped distance from `a` to `b` on the 32-bit circle, in `[0, 2^32)`.
pub open spec fn wrap_delta(a: u32, b: u32) -> int {
    (b - a) % (TICK_RANGE as int)
}

/// Wrapping 32-bit addition, as the clock advances.
pub open spec fn wrap_add(a: u32, us: u32) -> u32 {
    (((a + us) % (TICK_RANGE as int))) as u32
}

/// Timestamp in microseconds since boot.
///
/// This wraps after 2^32 microseconds, or about 71 minutes.
#[derive(Clone, Copy, PartialEq, Eq, Structural, Debug)]
pub struct Instant(pub u32);

impl Instant {
    /// The half-range order: `self` is before `other` when the wrapped
    /// distance from `self` to `other` is strictly under `2^31`.  The
    /// relation is reflexive; of two instants not exactly half the range
    /// apart, at least one is before the other, and two instants exactly
    /// half the range apart are each before neither.
    pub open spec fn spec_is_before(self, other: Instant) -> bool {
        wrap_delta(self.0, other.0) < TICK_HALF_RANGE
    }

    /// Wrap-aware comparison of two instants.
    pub fn is_before(&self, other: Instant) -> (r: bool)
        ensures
            r == self.spec_is_before(other),
    {
        proof {
            lemma_wrap_delta_cases(self.0, other.0);
        }
        other.0.wrapping_sub(self.0) < 0x8000_0000
    }

    /// Advance an instant by `us` microseconds, wrapping around the counter.
    pub fn add_us(&self, us: u32) -> (r: Instant)
        ensures
            r.0 == wrap_add(self.0, us),
    {
        proof {
            lemma_wrap_add_cases(self.0, us);
        }
        Instant(self.0.wrapping_add(us))
    }
}

/// The wrapped distance agrees with the branching form of wrapping
/// subtraction.
proof fn lemma_wrap_delta_cases(a: u32, b: u32)
    ensures
        wrap_delta(a, b) == if b >= a {
            b - a
        } else {
            b - a + TICK_RANGE
        },
{
    let m = TICK_RANGE as int;
    if b >= a {
        vstd::arithmetic::div_mod::lemma_small_mod((b - a) as nat, m as nat);
    } else {
        vstd::arithmetic::div_mod::lemma_mod_add_multiples_vanish(b - a, m);
        vstd::arithmetic::div_mod::lemma_small_mod((b - a + m) as nat, m as nat);
    }
}

/// Wrapping addition agrees with addition modulo the counter range.
proof fn lemma_wrap_add_cases(a: u32, us: u32)
    ensures
        wrap_add(a, us) == if a + us > u32::MAX {
            a + us - TICK_RANGE
        } else {
            a + us
        },
{
    let m = TICK_RANGE as int;
    if a + us > u32::MAX {
        vstd::arithmetic::div_mod::lemma_mod_sub_multiples_vanish(a + us, m);
        vstd::arithmetic::div_mod::lemma_small_mod((a + us - m) as nat, m as nat);
    } else {
        vstd::arithmetic::div_mod::lemma_small_mod((a + us) as nat, m as nat);
    }
}

/// Half-range correctness of the wrap-aware order: whenever the wrapped
/// distance from `a` to `b` is under half the range, `a` is before `b`;
/// whenever it reaches the other half, `a` is not before `b`.
pub proof fn lemma_is_before_half_range(a: Instant, b: Instant)
    ensures
        wrap_delta(a.0, b.0) < TICK_HALF_RANGE ==> a.spec_is_before(b),
        wrap_delta(a.0, b.0) >= TICK_HALF_RANGE ==> !a.spec_is_before(b),
{
}

/// Of two instants not exactly half the range apart, at least one is
/// before the other; both hold only when the instants coincide.
pub proof fn lemma_is_before_total(a: Instant, b: Instant)
    ensures
        !a.spec_is_before(b) && wrap_delta(a.0, b.0) != TICK_HALF_RANGE ==> b.spec_is_before(a),
        a.spec_is_before(b) && b.spec_is_before(a) ==> a.0 == b.0,
{
    lemma_wrap_delta_cases(a.0, b.0);
    lemma_wrap_delta_cases(b.0, a.0);
}

} // verus!

// The timer service: a sorted list of pending deadlines, driven by the
// system-tick interrupt.  Each pending `Wait` future owns one entry; the
// entry records the deadline and the run-queue node to wake.  The list is
// kept sorted under the wrap-aware order, insertion happening at the first
// position whose deadline the new one precedes.

verus! {

use crate::runqueue::{spec_enqueue, QueueModel, RunQueue};
use crate::Runtime;

/// One pending deadline: the instant to fire at, the run-queue node of the
/// subscribed task, and a key distinguishing this entry from every other
/// entry the service ever issued.
#[derive(Clone, Copy)]
pub struct Deadline {
    pub target: Instant,
    pub node: usize,
    pub id: u64,
}

/// Abstract state of the timer service.
pub struct TimersModel {
    /// The current reading of the free-running microsecond counter.
    pub now: Instant,
    /// Pending deadlines, earliest first under the wrap-aware order.
    pub deadlines: Seq<Deadline>,
    /// Key for the next entry to be linked.
    pub next_id: u64,
}

/// The deadline list is sorted: walking it yields targets in non-decreasing
/// wrap-aware order.
pub open spec fn sorted(s: Seq<Deadline>) -> bool {
    forall|i: int|
        0 <= i < s.len() - 1 ==> (#[trigger] s[i]).target.spec_is_before(s[i + 1].target)
}

/// Every target lies within half a counter range of `base`: the regime in
/// which the wrap-aware order behaves as a total order.
pub open spec fn in_window(s: Seq<Deadline>, base: Instant) -> bool {
    forall|i: int|
        0 <= i < s.len() ==> wrap_delta(base.0, (#[trigger] s[i]).target.0) < TICK_HALF_RANGE
}

/// Entry keys are pairwise distinct.
pub open spec fn ids_distinct(s: Seq<Deadline>) -> bool {
    forall|i: int, j: int| 0 <= i < j < s.len() ==> s[i].id != s[j].id
}

/// Every entry key was issued before `next`.
pub open spec fn ids_below(s: Seq<Deadline>, next: u64) -> bool {
    forall|i: int| 0 <= i < s.len() ==> (#[trigger] s[i]).id < next
}

/// Well-formedness of the timer service state: entry keys are distinct and
/// below the issue counter.  Sortedness of the list is stated separately:
/// ticking preserves it outright, while linking and unlinking preserve it
/// whenever the pending targets share a half-range window (see
/// [`lemma_insert_sorted_window`] and [`lemma_unlink_preserves_sorted`]).
pub open spec fn timers_wf(m: TimersModel) -> bool {
    &&& ids_distinct(m.deadlines)
    &&& ids_below(m.deadlines, m.next_id)
}

/// The position at which a deadline with target `t` is linked: just before
/// the first existing entry that `t` precedes, or at the end.
pub open spec fn insert_pos(s: Seq<Deadline>, t: Instant) -> int
    decreases s.len(),
{
    if s.len() == 0 {
        0
    } else if t.spec_is_before(s[0].target) {
        0
    } else {
        1 + insert_pos(s.subrange(1, s.len() as int), t)
    }
}

/// The defining properties of [`insert_pos`]: everything before it refuses
/// `t`, and the entry at it (if any) accepts `t`.
pub proof fn lemma_insert_pos_props(s: Seq<Deadline>, t: Instant)
    ensures
        0 <= insert_pos(s, t) <= s.len(),
        forall|k: int| 0 <= k < insert_pos(s, t) ==> !t.spec_is_before((#[trigger] s[k]).target),
        insert_pos(s, t) < s.len() ==> t.spec_is_before(s[insert_pos(s, t)].target),
    decreases s.len(),
{
    if s.len() > 0 && !t.spec_is_before(s[0].target) {
        let rest = s.subrange(1, s.len() as int);
        lemma_insert_pos_props(rest, t);
        assert forall|k: int| 0 <= k < insert_pos(s, t) implies !t.spec_is_before(
            (#[trigger] s[k]).target,
        ) by {
            if k > 0 {
                assert(rest[k - 1] == s[k]);
            }
        }
        if insert_pos(s, t) < s.len() {
            assert(rest[insert_pos(rest, t)] == s[insert_pos(s, t)]);
        }
    }
}

/// The first position whose entry carries key `id`, or the length when no
/// entry does.
pub open spec fn id_pos(s: Seq<Deadline>, id: u64) -> int
    decreases s.len(),
{
    if s.len() == 0 {
        0
    } else if s[0].id == id {
        0
    } else {
        1 + id_pos(s.subrange(1, s.len() as int), id)
    }
}

/// The defining properties of [`id_pos`].
pub proof fn lemma_id_pos_props(s: Seq<Deadline>, id: u64)
    ensures
        0 <= id_pos(s, id) <= s.len(),
        forall|k: int| 0 <= k < id_pos(s, id) ==> (#[trigger] s[k]).id != id,
        id_pos(s, id) < s.len() ==> s[id_pos(s, id)].id == id,
    decreases s.len(),
{
    if s.len() > 0 && s[0].id != id {
        let rest = s.subrange(1, s.len() as int);
        lemma_id_pos_props(rest, id);
        assert forall|k: int| 0 <= k < id_pos(s, id) implies (#[trigger] s[k]).id != id by {
            if k > 0 {
                assert(rest[k - 1] == s[k]);
            }
        }
        if id_pos(s, id) < s.len() {
            assert(rest[id_pos(rest, id)] == s[id_pos(s, id)]);
        }
    }
}

/// The timer service: the current counter reading and the sorted deadline
/// list.
pub struct Timers {
    now: Instant,
    deadlines: Vec<Deadline>,
    next_id: u64,
}

impl View for Timers {
    type V = TimersModel;

    closed spec fn view(&self) -> TimersModel {
        TimersModel { now: self.now, deadlines: self.deadlines@, next_id: self.next_id }
    }
}

impl Timers {
    /// A timer service at counter value zero with no pending deadlines.
    pub fn new() -> (t: Timers)
        ensures
            timers_wf(t@),
            t@.now == Instant(0),
            t@.deadlines =~= Seq::<Deadline>::empty(),
            t@.next_id == 0,
    {
        Timers { now: Instant(0), deadlines: Vec::new(), next_id: 0 }
    }

    /// Read the current time.
    pub fn now(&self) -> (t: Instant)
        ensures
            t == self@.now,
    {
        self.now
    }

    /// The earliest pending deadline, handed to the platform scheduler hook
    /// so it can program the next hardware tick.
    pub fn next_deadline(&self) -> (r: Option<Instant>)
        ensures
            self@.deadlines.len() == 0 ==> r is None,
            self@.deadlines.len() > 0 ==> r == Some(self@.deadlines[0].target),
    {
        if self.deadlines.len() == 0 {
            None
        } else {
            Some(self.deadlines[0].target)
        }
    }

    /// Whether the entry with key `id` is still linked.
    pub fn is_linked(&self, id: u64) -> (r: bool)
        ensures
            r == (id_pos(self@.deadlines, id) < self@.deadlines.len()),
    {
        let mut i: usize = 0;
        let n = self.deadlines.len();
        proof {
            lemma_id_pos_props(self@.deadlines, id);
        }
        while i < n
            invariant
                i <= n,
                n == self@.deadlines.len(),
                forall|k: int| 0 <= k < i ==> (#[trigger] self@.deadlines[k]).id != id,
                0 <= id_pos(self@.deadlines, id) <= self@.deadlines.len(),
                id_pos(self@.deadlines, id) < self@.deadlines.len() ==> self@.deadlines[id_pos(
                    self@.deadlines,
                    id,
                )].id == id,
            decreases n - i,
        {
            if self.deadlines[i].id == id {
                proof {
                    lemma_id_pos_props(self@.deadlines, id);
                    assert(id_pos(self@.deadlines, id) <= i);
                }
                return true;
            }
            i = i + 1;
        }
        proof {
            if id_pos(self@.deadlines, id) < self@.deadlines.len() {
                assert((#[trigger] self@.deadlines[id_pos(self@.deadlines, id)]).id == id);
                assert(false);
            }
        }
        false
    }

    /// Link a new deadline into the list at the unique position that keeps
    /// it sorted: just before the first entry whose target the new one
    /// precedes.  Returns the key of the new entry.
    pub fn link(&mut self, target: Instant, node: usize) -> (id: u64)
        requires
            timers_wf(old(self)@),
            old(self)@.next_id < u64::MAX,
        ensures
            timers_wf(final(self)@),
            forall|base: Instant|
                sorted(old(self)@.deadlines) && in_window(old(self)@.deadlines, base)
                    && wrap_delta(base.0, target.0) < TICK_HALF_RANGE ==> sorted(
                    final(self)@.deadlines,
                ),
            id == old(self)@.next_id,
            final(self)@.next_id == old(self)@.next_id + 1,
            final(self)@.now == old(self)@.now,
            final(self)@.deadlines == old(self)@.deadlines.insert(
                insert_pos(old(self)@.deadlines, target),
                Deadline { target, node, id },
            ),
    {
        let ghost s0 = self@.deadlines;
        let id = self.next_id;
        let entry = Deadline { target, node, id };
        let n = self.deadlines.len();
        let mut i: usize = 0;
        proof {
            lemma_insert_pos_props(s0, target);
        }
        while i < n && !target.is_before(self.deadlines[i].target)
            invariant
                i <= n,
                n == s0.len(),
                self@.deadlines == s0,
                forall|k: int| 0 <= k < i ==> !target.spec_is_before((#[trigger] s0[k]).target),
            decreases n - i,
        {
            i = i + 1;
        }
        proof {
            lemma_insert_pos_props(s0, target);
            assert(i == insert_pos(s0, target)) by {
                let p = insert_pos(s0, target);
                if p < i {
                    assert(!target.spec_is_before(s0[p].target));
                }
                if i < p {
                    assert(!target.spec_is_before(s0[i as int].target));
                }
            }
        }
        self.deadlines.insert(i, entry);
        self.next_id = self.next_id + 1;
        proof {
            let p = i as int;
            let s1 = self@.deadlines;
            s0.insert_ensures(p, entry);
            lemma_insert_pos_props(s0, target);
            assert forall|base: Instant|
                sorted(s0) && in_window(s0, base) && wrap_delta(base.0, target.0)
                    < TICK_HALF_RANGE implies sorted(s1) by {
                lemma_insert_sorted_window(s0, entry, base);
            }
            assert(ids_distinct(s1) && ids_below(s1, self@.next_id)) by {
                assert forall|k: int| 0 <= k < s1.len() implies (#[trigger] s1[k]).id
                    < self@.next_id && (s1[k].id == id ==> k == p) by {
                    if k < p {
                        assert(s1[k] == s0[k]);
                    } else if k > p {
                        assert(s1[k] == s0[k - 1]);
                    }
                }
                assert forall|a: int, b: int| 0 <= a < b < s1.len() implies s1[a].id != s1[b].id by {
                    let a0: int = if a < p { a } else { a - 1 };
                    let b0: int = if b < p { b } else { b - 1 };
                    if a != p && b != p {
                        assert(s1[a] == s0[a0] && s1[b] == s0[b0]);
                    }
                }
            }
        }
        id
    }
}


impl Timers {
    /// Splice the entry with key `id` out of the list, as the drop path of a
    /// linked `Wait` does.  Returns whether an entry was removed; an absent
    /// key (already fired) is a no-op.
    pub fn unlink(&mut self, id: u64) -> (removed: bool)
        requires
            timers_wf(old(self)@),
        ensures
            timers_wf(final(self)@),
            final(self)@.now == old(self)@.now,
            final(self)@.next_id == old(self)@.next_id,
            removed == (id_pos(old(self)@.deadlines, id) < old(self)@.deadlines.len()),
            removed ==> final(self)@.deadlines == old(self)@.deadlines.remove(
                id_pos(old(self)@.deadlines, id),
            ),
            !removed ==> final(self)@.deadlines == old(self)@.deadlines,
            forall|base: Instant|
                sorted(old(self)@.deadlines) && in_window(old(self)@.deadlines, base) ==> sorted(
                    final(self)@.deadlines,
                ),
    {
        let ghost s0 = self@.deadlines;
        let n = self.deadlines.len();
        let mut i: usize = 0;
        proof {
            lemma_id_pos_props(s0, id);
        }
        while i < n && self.deadlines[i].id != id
            invariant
                i <= n,
                self@ == old(self)@,
                s0 == self@.deadlines,
                n == self@.deadlines.len(),
                forall|k: int| 0 <= k < i ==> (#[trigger] s0[k]).id != id,
            decreases n - i,
        {
            i = i + 1;
        }
        proof {
            lemma_id_pos_props(s0, id);
            assert(i == id_pos(s0, id) || (i == n && id_pos(s0, id) == n)) by {
                let p = id_pos(s0, id);
                if p < i {
                    assert(s0[p].id == id);
                }
                if i < p {
                    assert(s0[i as int].id != id);
                }
            }
        }
        if i == n {
            return false;
        }
        self.deadlines.remove(i);
        proof {
            let p = i as int;
            let s1 = self@.deadlines;
            s0.remove_ensures(p);
            assert(ids_distinct(s1) && ids_below(s1, self@.next_id)) by {
                assert forall|a: int, b: int|
                    0 <= a < b < s1.len() implies s1[a].id != s1[b].id && s1[a].id < self@.next_id
                    && s1[b].id < self@.next_id by {
                    let a0: int = if a < p { a } else { a + 1 };
                    let b0: int = if b < p { b } else { b + 1 };
                    assert(s1[a] == s0[a0] && s1[b] == s0[b0]);
                }
                assert forall|a: int| 0 <= a < s1.len() implies (#[trigger] s1[a]).id
                    < self@.next_id by {
                    let a0: int = if a < p { a } else { a + 1 };
                    assert(s1[a] == s0[a0]);
                }
            }
            assert forall|base: Instant|
                sorted(s0) && in_window(s0, base) implies sorted(s1) by {
                lemma_unlink_preserves_sorted(s0, p, base);
            }
        }
        true
    }
}

/// Length of the expired prefix: the entries the tick handler fires, walking
/// from the head until the first deadline that is still strictly in the
/// future.
pub open spec fn expired_prefix_len(s: Seq<Deadline>, now: Instant) -> int
    decreases s.len(),
{
    if s.len() == 0 {
        0
    } else if s[0].target.spec_is_before(now) {
        1 + expired_prefix_len(s.subrange(1, s.len() as int), now)
    } else {
        0
    }
}

/// The expired prefix is exactly the maximal head run of deadlines not
/// strictly after `now`.
pub proof fn lemma_expired_prefix_char(s: Seq<Deadline>, now: Instant, p: int)
    requires
        0 <= p <= s.len(),
        forall|k: int| 0 <= k < p ==> (#[trigger] s[k]).target.spec_is_before(now),
        p < s.len() ==> !s[p].target.spec_is_before(now),
    ensures
        expired_prefix_len(s, now) == p,
    decreases s.len(),
{
    if s.len() > 0 {
        let rest = s.subrange(1, s.len() as int);
        if p == 0 {
        } else {
            assert(s[0].target.spec_is_before(now));
            assert forall|k: int| 0 <= k < p - 1 implies (#[trigger] rest[k]).target.spec_is_before(
                now,
            ) by {
                assert(rest[k] == s[k + 1]);
            }
            if p - 1 < rest.len() {
                assert(rest[p - 1] == s[p]);
            }
            lemma_expired_prefix_char(rest, now, p - 1);
        }
    }
}

/// Deadlines wake in walk order: whenever a tick fires the deadline at one
/// position, it also fires every deadline before it, whose targets — in a
/// half-range window — are not after it.  An earlier deadline is therefore
/// never left pending while a later one has fired.
pub proof fn lemma_earlier_deadline_fires_first(s: Seq<Deadline>, now: Instant, i: int, j: int)
    requires
        0 <= i <= j < s.len(),
        j < expired_prefix_len(s, now),
    ensures
        i < expired_prefix_len(s, now),
{
}

/// The queue state after enqueueing the node of every listed deadline in
/// order.
pub open spec fn spec_enqueue_all(q: QueueModel, s: Seq<Deadline>) -> QueueModel
    decreases s.len(),
{
    if s.len() == 0 {
        q
    } else {
        spec_enqueue_all(spec_enqueue(q, s[0].node), s.subrange(1, s.len() as int))
    }
}

/// Folding one more deadline onto the end of an enqueue run.
proof fn lemma_enqueue_all_snoc(q: QueueModel, s: Seq<Deadline>, e: Deadline)
    ensures
        spec_enqueue_all(q, s.push(e)) == spec_enqueue(spec_enqueue_all(q, s), e.node),
    decreases s.len(),
{
    if s.len() == 0 {
        let sp = s.push(e);
        assert(sp[0] == e);
        assert(sp.subrange(1, 1) =~= Seq::<Deadline>::empty());
        assert(spec_enqueue_all(q, sp) == spec_enqueue_all(spec_enqueue(q, e.node), sp.subrange(1, 1)));
        assert(spec_enqueue_all(spec_enqueue(q, e.node), sp.subrange(1, 1)) == spec_enqueue(q, e.node));
        assert(spec_enqueue_all(q, s) == q);
    } else {
        let sp = s.push(e);
        let rest = s.subrange(1, s.len() as int);
        assert(sp[0] == s[0]);
        assert(sp.subrange(1, sp.len() as int) =~= rest.push(e));
        let q1 = spec_enqueue(q, s[0].node);
        lemma_enqueue_all_snoc(q1, rest, e);
        assert(spec_enqueue_all(q, sp) == spec_enqueue_all(q1, sp.subrange(1, sp.len() as int)));
        assert(spec_enqueue_all(q1, sp.subrange(1, sp.len() as int)) == spec_enqueue_all(
            q1,
            rest.push(e),
        ));
        assert(spec_enqueue_all(q, s) == spec_enqueue_all(q1, rest));
    }
}

impl Timers {
    /// The system-tick handler: record the new counter reading, then walk
    /// the list from the head and, for every deadline not strictly after
    /// `now`, unlink it and wake its subscriber.  The walk stops at the
    /// first deadline still in the future.
    pub fn tick(&mut self, now: Instant, queue: &mut RunQueue)
        requires
            timers_wf(old(self)@),
            old(queue).wf(),
            forall|i: int|
                0 <= i < old(self)@.deadlines.len() ==> (#[trigger] old(
                    self,
                )@.deadlines[i]).node < old(queue)@.capacity,
        ensures
            timers_wf(final(self)@),
            final(self)@.now == now,
            final(self)@.next_id == old(self)@.next_id,
            final(self)@.deadlines == old(self)@.deadlines.subrange(
                expired_prefix_len(old(self)@.deadlines, now),
                old(self)@.deadlines.len() as int,
            ),
            sorted(old(self)@.deadlines) ==> sorted(final(self)@.deadlines),
            final(queue).wf(),
            final(queue)@ == spec_enqueue_all(
                old(queue)@,
                old(self)@.deadlines.subrange(0, expired_prefix_len(old(self)@.deadlines, now)),
            ),
            final(queue)@.capacity == old(queue)@.capacity,
    {
        self.now = now;
        let ghost s0 = old(self)@.deadlines;
        let ghost q0 = old(queue)@;
        let ghost n = s0.len() as int;
        let ghost mut p: int = 0;
        proof {
            assert(s0.subrange(0, 0) =~= Seq::<Deadline>::empty());
            assert(self@.deadlines =~= s0.subrange(0, n));
        }
        loop
            invariant
                0 <= p <= n,
                n == s0.len(),
                self@.now == now,
                self@.next_id == old(self)@.next_id,
                self@.deadlines =~= s0.subrange(p, n),
                forall|k: int| 0 <= k < p ==> (#[trigger] s0[k]).target.spec_is_before(now),
                queue.wf(),
                queue@ == spec_enqueue_all(q0, s0.subrange(0, p)),
                queue@.capacity == q0.capacity,
                forall|i: int| 0 <= i < n ==> (#[trigger] s0[i]).node < q0.capacity,
                timers_wf(old(self)@),
            ensures
                0 <= p <= n,
                self@.now == now,
                self@.next_id == old(self)@.next_id,
                self@.deadlines =~= s0.subrange(p, n),
                forall|k: int| 0 <= k < p ==> (#[trigger] s0[k]).target.spec_is_before(now),
                p < n ==> !s0[p].target.spec_is_before(now),
                queue.wf(),
                queue@ == spec_enqueue_all(q0, s0.subrange(0, p)),
                queue@.capacity == q0.capacity,
            decreases n - p,
        {
            if self.deadlines.len() == 0 {
                break;
            }
            let head = self.deadlines[0];
            proof {
                assert(head == s0.subrange(p, n)[0]);
                assert(head == s0[p]);
            }
            if !head.target.is_before(now) {
                break;
            }
            self.deadlines.remove(0);
            queue.enqueue(head.node);
            proof {
                assert(self@.deadlines =~= s0.subrange(p + 1, n)) by {
                    assert(self@.deadlines =~= s0.subrange(p, n).remove(0));
                }
                assert(s0.subrange(0, p + 1) =~= s0.subrange(0, p).push(s0[p]));
                lemma_enqueue_all_snoc(q0, s0.subrange(0, p), s0[p]);
                p = p + 1;
            }
        }
        proof {
            lemma_expired_prefix_char(s0, now, p);
            let s1 = self@.deadlines;
            assert(ids_distinct(s1) && ids_below(s1, self@.next_id)) by {
                assert forall|a: int, b: int|
                    0 <= a < b < s1.len() implies s1[a].id != s1[b].id by {
                    assert(s1[a] == s0[a + p] && s1[b] == s0[b + p]);
                }
                assert forall|a: int| 0 <= a < s1.len() implies (#[trigger] s1[a]).id
                    < self@.next_id by {
                    assert(s1[a] == s0[a + p]);
                }
            }
            if sorted(s0) {
                assert forall|k: int|
                    0 <= k < s1.len() - 1 implies (#[trigger] s1[k]).target.spec_is_before(
                    s1[k + 1].target,
                ) by {
                    assert(s1[k] == s0[k + p] && s1[k + 1] == s0[k + p + 1]);
                }
            }
        }
    }
}

/// Within a half-range window around `base`, the wrap-aware order agrees
/// with the order of distances from `base`.
proof fn lemma_window_le(base: Instant, x: Instant, y: Instant)
    requires
        wrap_delta(base.0, x.0) < TICK_HALF_RANGE,
        wrap_delta(base.0, y.0) < TICK_HALF_RANGE,
    ensures
        x.spec_is_before(y) <==> wrap_delta(base.0, x.0) <= wrap_delta(base.0, y.0),
{
    lemma_wrap_delta_cases(base.0, x.0);
    lemma_wrap_delta_cases(base.0, y.0);
    lemma_wrap_delta_cases(x.0, y.0);
}

/// In a sorted list whose targets share a half-range window, every entry
/// precedes every later entry, not only its neighbour.
pub proof fn lemma_sorted_window_pairwise(s: Seq<Deadline>, base: Instant, i: int, j: int)
    requires
        sorted(s),
        in_window(s, base),
        0 <= i <= j < s.len(),
    ensures
        s[i].target.spec_is_before(s[j].target),
        wrap_delta(base.0, s[i].target.0) <= wrap_delta(base.0, s[j].target.0),
    decreases j - i,
{
    if i == j {
        lemma_window_le(base, s[i].target, s[j].target);
    } else {
        lemma_sorted_window_pairwise(s, base, i, j - 1);
        assert(s[j - 1].target.spec_is_before(s[j].target));
        lemma_window_le(base, s[j - 1].target, s[j].target);
        lemma_window_le(base, s[i].target, s[j].target);
    }
}

/// Timer-list sortedness under insertion: linking a deadline at its walk
/// position keeps the order non-decreasing, provided the pending targets
/// and the new one share a half-range window (as they do whenever every
/// deadline lies less than half the counter range ahead of the clock).
pub proof fn lemma_insert_sorted_window(s: Seq<Deadline>, e: Deadline, base: Instant)
    requires
        sorted(s),
        in_window(s, base),
        wrap_delta(base.0, e.target.0) < TICK_HALF_RANGE,
    ensures
        sorted(s.insert(insert_pos(s, e.target), e)),
{
    let p = insert_pos(s, e.target);
    lemma_insert_pos_props(s, e.target);
    s.insert_ensures(p, e);
    let s1 = s.insert(p, e);
    assert forall|k: int|
        0 <= k < s1.len() - 1 implies (#[trigger] s1[k]).target.spec_is_before(
        s1[k + 1].target,
    ) by {
        if k + 1 < p {
            assert(s1[k] == s[k] && s1[k + 1] == s[k + 1]);
        } else if k + 1 == p {
            // the predecessor refused the new target; within the window the
            // order is total, so the predecessor precedes it
            assert(s1[k] == s[k]);
            assert(!e.target.spec_is_before(s[k].target));
            lemma_window_le(base, e.target, s[k].target);
            lemma_window_le(base, s[k].target, e.target);
        } else if k == p {
            assert(s1[k + 1] == s[k]);
            assert(e.target.spec_is_before(s[k].target));
        } else {
            assert(s1[k] == s[k - 1] && s1[k + 1] == s[k]);
        }
    }
}

/// Timer-list sortedness under removal: splicing any entry out of a sorted
/// list keeps the walk order non-decreasing, provided the pending targets
/// share a half-range window (as they do whenever every deadline lies less
/// than half the counter range ahead of the clock).  Together with the
/// windowed sortedness clause of [`Timers::link`] and the outright one of
/// [`Timers::tick`], any windowed sequence of insertions and removals
/// leaves the list sorted.
pub proof fn lemma_unlink_preserves_sorted(s: Seq<Deadline>, i: int, base: Instant)
    requires
        sorted(s),
        in_window(s, base),
        0 <= i < s.len(),
    ensures
        sorted(s.remove(i)),
{
    let r = s.remove(i);
    s.remove_ensures(i);
    assert forall|k: int|
        0 <= k < r.len() - 1 implies (#[trigger] r[k]).target.spec_is_before(r[k + 1].target) by {
        let k0: int = if k < i { k } else { k + 1 };
        let k1: int = if k + 1 < i { k + 1 } else { k + 2 };
        assert(r[k] == s[k0] && r[k + 1] == s[k1]);
        lemma_sorted_window_pairwise(s, base, k0, k1);
    }
}

/// A pending timer future: the deadline node that lives in the awaiting
/// task's own frame.  While linked it is borrowed by the deadline list,
/// referenced through its entry key.
#[must_use]
pub struct Wait {
    /// The task-context token the wait was created under.
    pub rt: Runtime,
    /// The instant the wait completes at.
    pub target: Instant,
    /// The key of this wait's entry in the deadline list, while linked.
    pub linked: Option<u64>,
}

impl Wait {
    /// A wait for the given target, not yet linked anywhere.
    pub fn new(rt: Runtime, target: Instant) -> (w: Wait)
        ensures
            w.target == target,
            w.linked is None,
    {
        Wait { rt, target, linked: None }
    }

    /// One poll of the wait by the task owning run-queue node `node`.
    /// Completes exactly when the target is not after the current time
    /// (wrap-aware); otherwise subscribes by linking a deadline entry, if
    /// one is not already linked, and reports pending.
    pub fn poll(&mut self, timers: &mut Timers, node: usize) -> (ready: bool)
        requires
            timers_wf(old(timers)@),
            old(timers)@.next_id < u64::MAX,
        ensures
            timers_wf(final(timers)@),
            ready == old(self).target.spec_is_before(old(timers)@.now),
            final(self).target == old(self).target,
            final(self).rt == old(self).rt,
            final(timers)@.now == old(timers)@.now,
            forall|base: Instant|
                sorted(old(timers)@.deadlines) && in_window(old(timers)@.deadlines, base)
                    && wrap_delta(base.0, old(self).target.0) < TICK_HALF_RANGE ==> sorted(
                    final(timers)@.deadlines,
                ),
            ready ==> *final(self) == *old(self) && final(timers)@ == old(timers)@,
            !ready ==> match old(self).linked {
                Some(id) => {
                    if id_pos(old(timers)@.deadlines, id) < old(timers)@.deadlines.len() {
                        &&& *final(self) == *old(self)
                        &&& final(timers)@ == old(timers)@
                    } else {
                        &&& final(self).linked == Some(old(timers)@.next_id)
                        &&& final(timers)@.deadlines == old(timers)@.deadlines.insert(
                            insert_pos(old(timers)@.deadlines, old(self).target),
                            Deadline {
                                target: old(self).target,
                                node,
                                id: old(timers)@.next_id,
                            },
                        )
                    }
                },
                None => {
                    &&& final(self).linked == Some(old(timers)@.next_id)
                    &&& final(timers)@.deadlines == old(timers)@.deadlines.insert(
                        insert_pos(old(timers)@.deadlines, old(self).target),
                        Deadline { target: old(self).target, node, id: old(timers)@.next_id },
                    )
                },
            },
    {
        let now = timers.now();
        if self.target.is_before(now) {
            return true;
        }
        let already = match self.linked {
            Some(id) => timers.is_linked(id),
            None => false,
        };
        if !already {
            let id = timers.link(self.target, node);
            self.linked = Some(id);
        }
        false
    }

    /// The drop path of a wait: splice its entry out of the deadline list
    /// if it is still linked there.
    pub fn unlink(&mut self, timers: &mut Timers)
        requires
            timers_wf(old(timers)@),
        ensures
            timers_wf(final(timers)@),
            final(self).linked is None,
            final(self).target == old(self).target,
            final(self).rt == old(self).rt,
            final(timers)@.now == old(timers)@.now,
            final(timers)@.next_id == old(timers)@.next_id,
            match old(self).linked {
                Some(id) => {
                    if id_pos(old(timers)@.deadlines, id) < old(timers)@.deadlines.len() {
                        final(timers)@.deadlines == old(timers)@.deadlines.remove(
                            id_pos(old(timers)@.deadlines, id),
                        )
                    } else {
                        final(timers)@.deadlines == old(timers)@.deadlines
                    }
                },
                None => final(timers)@.deadlines == old(timers)@.deadlines,
            },
            forall|base: Instant|
                sorted(old(timers)@.deadlines) && in_window(old(timers)@.deadlines, base)
                    ==> sorted(final(timers)@.deadlines),
    {
        match self.linked {
            Some(id) => {
                let _ = timers.unlink(id);
                self.linked = None;
            },
            None => {},
        }
    }
}

impl Runtime {
    /// Get the current time.
    pub fn now(&self, timers: &Timers) -> (t: Instant)
        ensures
            t == timers@.now,
    {
        timers.now()
    }

    /// Wait until the given time.
    pub fn delay_until(&self, target: Instant) -> (w: Wait)
        ensures
            w.target == target,
            w.linked is None,
    {
        Wait::new(*self, target)
    }

    /// Delay for at least the given number of microseconds.
    pub fn delay_us(&self, timers: &Timers, us: u32) -> (w: Wait)
        ensures
            w.target.0 == wrap_add(timers@.now.0, us),
            w.linked is None,
    {
        Wait::new(*self, timers.now().add_us(us))
    }
}


impl Timers {
    /// Number of pending deadlines.
    pub fn deadline_count(&self) -> (r: usize)
        ensures
            r == self@.deadlines.len(),
    {
        self.deadlines.len()
    }

    /// The `i`th pending deadline, in walk order from the head.
    pub fn deadline(&self, i: usize) -> (d: Deadline)
        requires
            i < self@.deadlines.len(),
        ensures
            d == self@.deadlines[i as int],
    {
        self.deadlines[i]
    }
}

} // verus!
