//! A fair, queue-based mutex (MCS-style) over a protected value.
//!
//! Each acquiring thread brings its own [`MCSNode`] and spins on that node's
//! private flag, not on a shared lock word. In the running lock the waiter
//! queue is a linked list reached from an atomic tail pointer, and a node's
//! identity is its address; the verified core keeps the same queue as a
//! sequence of tickets handed out in arrival order. The head of the queue is
//! the holder; registering appends at the tail (the atomic swap), and a
//! release hands the lock to the next node in line (clearing the successor's
//! wait flag). Because the queue only ever grows at the tail and shrinks at
//! the head, acquisition order equals registration order — the fairness the
//! busy-wait spinlock lacks.

use vstd::prelude::*;

verus! {

/// An event in the life of the lock: a thread swapping its node onto the
/// tail (registering intent), or the holder handing the lock on.
pub enum McsOp {
    Register,
    Release,
}

/// A caller-owned, per-acquisition-attempt record. Its ticket is assigned
/// when the node is swapped onto the lock's tail, and stands for the node's
/// address in the linked queue; a fresh node carries the never-assigned
/// ticket zero. A node serves one `lock`/`unlock` cycle at a time.
pub struct MCSNode {
    pub(crate) id: u64,
}

impl MCSNode {
    /// The ticket the node was last registered under (zero before any).
    pub closed spec fn ticket(&self) -> u64 {
        self.id
    }

    /// Creates a node that has not yet been registered with any lock.
    pub fn new() -> (n: MCSNode)
        ensures
            n.ticket() == 0,
    {
        MCSNode { id: 0 }
    }

    /// Reads the ticket the node was last registered under.
    pub fn last_ticket(&self) -> (t: u64)
        ensures
            t == self.ticket(),
    {
        self.id
    }
}

/// The queue-based lock: the waiters in arrival order (the head holds the
/// lock), the next ticket to hand out, and the protected value.
pub struct MCSLock<V> {
    pub(crate) waiters: Vec<u64>,
    pub(crate) next_ticket: u64,
    pub(crate) data: V,
}

/// Exclusive access to the value of the [`MCSLock`] it was acquired from;
/// giving the lock back is the only way out.
pub struct MCSLockGuard<V> {
    pub(crate) lock: MCSLock<V>,
    pub(crate) id: u64,
}

impl<V> MCSLock<V> {
    /// The tickets of the waiting threads, in arrival order; the head, if
    /// any, holds the lock.
    pub closed spec fn queue(&self) -> Seq<u64> {
        self.waiters@
    }

    /// The next ticket to be handed out.
    pub closed spec fn fresh_ticket(&self) -> u64 {
        self.next_ticket
    }

    /// The protected value.
    pub closed spec fn value(&self) -> V {
        self.data
    }

    /// Whether the node registered under `id` currently holds the lock.
    pub open spec fn holds(&self, id: u64) -> bool {
        self.queue().len() > 0 && self.queue()[0] == id
    }

    /// Well-formed: tickets are handed out in arrival order, so the queue is
    /// strictly increasing, every entry already handed out, and none is the
    /// never-assigned ticket zero.
    pub open spec fn wf(&self) -> bool {
        &&& 1 <= self.fresh_ticket()
        &&& (forall|i: int|
            0 <= i < self.queue().len() ==> 1 <= #[trigger] self.queue()[i]
                && self.queue()[i] < self.fresh_ticket())
        &&& (forall|i: int, j: int|
            0 <= i < j < self.queue().len() ==> self.queue()[i] < self.queue()[j])
    }

    /// Creates an uncontended lock protecting `v`.
    pub fn new(v: V) -> (l: MCSLock<V>)
        ensures
            l.wf(),
            l.queue().len() == 0,
            l.fresh_ticket() == 1,
            l.value() == v,
    {
        MCSLock { waiters: Vec::new(), next_ticket: 1, data: v }
    }

    /// The atomic tail swap: registers `node` as the newest waiter, handing
    /// it a fresh ticket. If the queue was empty the node acquires the lock
    /// at once (the uncontended fast path); otherwise it must spin until
    /// [`MCSLock::is_granted`] reports it has reached the head.
    pub fn register(&mut self, node: &mut MCSNode)
        requires
            old(self).wf(),
            old(self).fresh_ticket() < u64::MAX,
        ensures
            final(self).wf(),
            final(node).ticket() == old(self).fresh_ticket(),
            final(self).queue() == old(self).queue().push(old(self).fresh_ticket()),
            final(self).fresh_ticket() == old(self).fresh_ticket() + 1,
            final(self).value() == old(self).value(),
    {
        node.id = self.next_ticket;
        self.waiters.push(self.next_ticket);
        self.next_ticket = self.next_ticket + 1;
        proof {
            let q0 = old(self).queue();
            let t = old(self).fresh_ticket();
            let q = self.queue();
            assert forall|i: int|
                0 <= i < q.len() implies 1 <= #[trigger] q[i] && q[i] < self.fresh_ticket() by {
                if i < q0.len() {
                    assert(q[i] == q0[i]);
                } else {
                    assert(q[i] == t);
                }
            }
            assert forall|i: int, j: int| 0 <= i < j < q.len() implies q[i] < q[j] by {
                assert(q[i] == q0[i]);
                if j < q0.len() {
                    assert(q[j] == q0[j]);
                } else {
                    assert(q[j] == t);
                }
            }
        }
    }

    /// One spin-read of the node's private wait flag: whether `node` has
    /// reached the head of the queue and so holds the lock.
    pub fn is_granted(&self, node: &MCSNode) -> (granted: bool)
        ensures
            granted <==> self.holds(node.ticket()),
    {
        self.waiters.len() > 0 && self.waiters[0] == node.id
    }

    /// The holder hands the lock on: its node leaves the queue, and the next
    /// waiter in arrival order, if any, becomes the holder (its wait flag is
    /// cleared). When no successor exists the tail is swung back to empty.
    pub fn release(&mut self, node: &MCSNode)
        requires
            old(self).wf(),
            old(self).holds(node.ticket()),
        ensures
            final(self).wf(),
            final(self).queue() == old(self).queue().drop_first(),
            final(self).fresh_ticket() == old(self).fresh_ticket(),
            final(self).value() == old(self).value(),
    {
        let _front: u64 = self.waiters.remove(0);
        proof {
            assert(self.waiters@ =~= old(self).waiters@.drop_first());
        }
    }

    /// Reads the protected value; only the holder may.
    pub fn read(&self, node: &MCSNode) -> (v: &V)
        requires
            self.holds(node.ticket()),
        ensures
            *v == self.value(),
    {
        &self.data
    }

    /// Overwrites the protected value; only the holder may.
    pub fn write(&mut self, node: &MCSNode, v: V)
        requires
            old(self).wf(),
            old(self).holds(node.ticket()),
        ensures
            final(self).wf(),
            final(self).queue() == old(self).queue(),
            final(self).fresh_ticket() == old(self).fresh_ticket(),
            final(self).value() == v,
    {
        self.data = v;
    }

    /// Reads the protected value on behalf of the head of the queue.
    fn read_head(&self) -> (v: &V)
        requires
            self.queue().len() > 0,
        ensures
            *v == self.value(),
    {
        &self.data
    }

    /// Acquires the uncontended lock through `node`, yielding the guard that
    /// carries exclusive access to the protected value until it is given
    /// back. Under contention a thread instead registers with
    /// [`MCSLock::register`] and spins on [`MCSLock::is_granted`] — the
    /// shell's loop.
    pub fn lock(self, node: &mut MCSNode) -> (g: MCSLockGuard<V>)
        requires
            self.wf(),
            self.queue().len() == 0,
            self.fresh_ticket() < u64::MAX,
        ensures
            g.wf(),
            g.value() == self.value(),
            final(node).ticket() == self.fresh_ticket(),
            g.inner().fresh_ticket() == self.fresh_ticket() + 1,
    {
        let mut l = self;
        l.register(node);
        proof {
            assert(l.queue() =~= seq![node.id]);
        }
        MCSLockGuard { lock: l, id: node.id }
    }
}

impl<V> MCSLockGuard<V> {
    /// The lock the guard holds closed, with its queue and value.
    pub closed spec fn inner(&self) -> MCSLock<V> {
        self.lock
    }

    /// The guard's lock is well-formed and its node is the sole waiter: it
    /// holds the lock, and nobody queues behind it while the guard is out.
    pub open spec fn wf(&self) -> bool {
        self.inner().wf() && self.inner().queue() == seq![self.ticket()]
    }

    /// The ticket the guard's node was registered under.
    pub closed spec fn ticket(&self) -> u64 {
        self.id
    }

    /// The protected value, as the guard holds it.
    pub closed spec fn value(&self) -> V {
        self.lock.data
    }

    /// Reads the protected value.
    pub fn get(&self) -> (v: &V)
        requires
            self.wf(),
        ensures
            *v == self.value(),
    {
        self.lock.read_head()
    }

    /// Overwrites the protected value.
    pub fn set(&mut self, v: V)
        requires
            old(self).wf(),
        ensures
            final(self).wf(),
            final(self).value() == v,
            final(self).ticket() == old(self).ticket(),
            final(self).inner().fresh_ticket() == old(self).inner().fresh_ticket(),
    {
        self.lock.data = v;
    }

    /// Releases the lock, dequeuing the guard's node and returning the lock
    /// with the value as the guard last held it.
    pub fn unlock(self) -> (l: MCSLock<V>)
        requires
            self.wf(),
        ensures
            l.wf(),
            l.queue().len() == 0,
            l.value() == self.value(),
            l.fresh_ticket() == self.inner().fresh_ticket(),
    {
        let mut l = self.lock;
        let node = MCSNode { id: self.id };
        l.release(&node);
        l
    }
}

/// Mutual exclusion: at most one node holds the lock — two granted tickets
/// are the same ticket, the head of the queue.
pub proof fn lemma_single_holder<V>(l: MCSLock<V>, a: u64, b: u64)
    requires
        l.holds(a),
        l.holds(b),
    ensures
        a == b,
{
}

/// A critical-section workload: `n` rounds of acquire through a fresh node,
/// add one to the protected counter, release. Exactly one increment lands
/// per acquisition, so the final counter is the initial one plus the number
/// of rounds.
pub fn increment_under_lock(lock: MCSLock<u64>, n: u64) -> (r: MCSLock<u64>)
    requires
        lock.wf(),
        lock.queue().len() == 0,
        lock.value() + n <= u64::MAX,
        lock.fresh_ticket() + n <= u64::MAX,
    ensures
        r.wf(),
        r.queue().len() == 0,
        r.value() == lock.value() + n,
{
    let mut l = lock;
    let mut i: u64 = 0;
    while i < n
        invariant
            i <= n,
            l.wf(),
            l.queue().len() == 0,
            l.value() == lock.value() + i,
            l.fresh_ticket() == lock.fresh_ticket() + i,
            lock.value() + n <= u64::MAX,
            lock.fresh_ticket() + n <= u64::MAX,
        decreases n - i,
    {
        let mut node = MCSNode::new();
        let mut g = l.lock(&mut node);
        let cur: u64 = *g.get();
        g.set(cur + 1);
        l = g.unlock();
        i = i + 1;
    }
    l
}

/// Fairness, locally: the holder is always the earliest-registered waiter —
/// the head of a well-formed queue carries the smallest ticket.
pub proof fn lemma_earliest_waiter_holds<V>(l: MCSLock<V>)
    requires
        l.wf(),
        l.queue().len() > 0,
    ensures
        forall|i: int| 0 < i < l.queue().len() ==> l.queue()[0] < #[trigger] l.queue()[i],
{
}

/// The trace state: the waiting queue, the next ticket, the tickets that
/// have held the lock so far in acquisition order, and every ticket handed
/// out so far in registration order.
pub open spec fn mcs_step(s: (Seq<u64>, u64, Seq<u64>, Seq<u64>), op: McsOp) -> (
    Seq<u64>,
    u64,
    Seq<u64>,
    Seq<u64>,
) {
    match op {
        McsOp::Register => if s.1 < u64::MAX {
            (s.0.push(s.1), (s.1 + 1) as u64, s.2, s.3.push(s.1))
        } else {
            s
        },
        McsOp::Release => if s.0.len() > 0 {
            (s.0.drop_first(), s.1, s.2.push(s.0[0]), s.3)
        } else {
            s
        },
    }
}

/// The trace state after a sequence of events, applied in order.
pub open spec fn mcs_run(s: (Seq<u64>, u64, Seq<u64>, Seq<u64>), ops: Seq<McsOp>) -> (
    Seq<u64>,
    u64,
    Seq<u64>,
    Seq<u64>,
)
    decreases ops.len(),
{
    if ops.len() == 0 {
        s
    } else {
        mcs_run(mcs_step(s, ops.first()), ops.drop_first())
    }
}

/// The trace invariant: the acquisitions so far, followed by the
/// still-waiting queue, are exactly the registrations so far, in order. An
/// idle lock — nothing queued, nothing yet granted or registered —
/// satisfies it trivially.
pub open spec fn mcs_inv(s: (Seq<u64>, u64, Seq<u64>, Seq<u64>)) -> bool {
    s.2 + s.0 == s.3
}

/// One event preserves the trace invariant.
pub proof fn lemma_mcs_step_inv(s: (Seq<u64>, u64, Seq<u64>, Seq<u64>), op: McsOp)
    requires
        mcs_inv(s),
    ensures
        mcs_inv(mcs_step(s, op)),
{
    let t = mcs_step(s, op);
    match op {
        McsOp::Register => {
            if s.1 < u64::MAX {
                assert(t.2 + t.0 =~= (s.2 + s.0).push(s.1));
                assert(t.3 =~= (s.2 + s.0).push(s.1));
            }
        },
        McsOp::Release => {
            if s.0.len() > 0 {
                assert(t.2 + t.0 =~= s.2 + s.0);
            }
        },
    }
}

/// MCS fairness: whatever the interleaving of registrations and releases,
/// the lock is acquired in registration order — the acquisition sequence is
/// always exactly the earliest registrations, and the waiters behind it
/// complete the registration order.
pub proof fn lemma_acquisition_follows_registration(
    s: (Seq<u64>, u64, Seq<u64>, Seq<u64>),
    ops: Seq<McsOp>,
)
    requires
        mcs_inv(s),
    ensures
        mcs_inv(mcs_run(s, ops)),
        mcs_run(s, ops).2 == mcs_run(s, ops).3.take(mcs_run(s, ops).2.len() as int),
    decreases ops.len(),
{
    if ops.len() == 0 {
        let r = mcs_run(s, ops);
        assert(r.2 =~= r.3.take(r.2.len() as int));
    } else {
        lemma_mcs_step_inv(s, ops.first());
        lemma_acquisition_follows_registration(mcs_step(s, ops.first()), ops.drop_first());
    }
}

} // verus!
