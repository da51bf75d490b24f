//! A busy-wait mutex over a protected value.
//!
//! The lock word is a single flag; a thread acquires by spin-reading the flag
//! until it is clear and then attempting a compare-and-swap, and releases by
//! clearing the flag. The verified core is that state machine — the flag, the
//! protected value, and the transitions one thread's step performs on them —
//! together with a guard that is the only way to reach the value. The busy
//! polling itself is the shell's: it retries [`SpinLock::try_acquire`] until
//! the compare-and-swap is won. No fairness is promised: which spinning
//! thread wins a free flag is left open.

use vstd::prelude::*;

verus! {

/// An event in the life of the lock: thread `t` winning the
/// compare-and-swap, or thread `t` clearing the flag.
pub enum LockOp {
    Acquire(u64),
    Release(u64),
}

/// A spinlock: a lock flag and the value it protects.
pub struct SpinLock<V> {
    pub(crate) locked: bool,
    pub(crate) data: V,
}

/// Exclusive access to the value of the [`SpinLock`] it was acquired from;
/// giving the lock back is the only way out.
pub struct SpinLockGuard<V> {
    pub(crate) lock: SpinLock<V>,
}

impl<V> SpinLock<V> {
    /// Whether the lock flag is set.
    pub closed spec fn is_locked(&self) -> bool {
        self.locked
    }

    /// The protected value.
    pub closed spec fn value(&self) -> V {
        self.data
    }

    /// Creates an unlocked spinlock protecting `v`.
    pub fn new(v: V) -> (l: SpinLock<V>)
        ensures
            !l.is_locked(),
            l.value() == v,
    {
        SpinLock { locked: false, data: v }
    }

    /// The compare-and-swap step of the acquire loop: wins exactly when the
    /// flag was clear, and then sets it. A `false` result sends the shell
    /// back to spin-reading the flag.
    pub fn try_acquire(&mut self) -> (acquired: bool)
        ensures
            acquired <==> !old(self).is_locked(),
            acquired ==> final(self).is_locked(),
            !acquired ==> final(self).is_locked() == old(self).is_locked(),
            final(self).value() == old(self).value(),
    {
        if self.locked {
            false
        } else {
            self.locked = true;
            true
        }
    }

    /// Clears the lock flag after a [`SpinLock::try_acquire`] win.
    pub fn release(&mut self)
        requires
            old(self).is_locked(),
        ensures
            !final(self).is_locked(),
            final(self).value() == old(self).value(),
    {
        self.locked = false;
    }

    /// Acquires the free lock, yielding the guard that carries exclusive
    /// access to the protected value until it is given back.
    pub fn lock(self) -> (g: SpinLockGuard<V>)
        requires
            !self.is_locked(),
        ensures
            g.value() == self.value(),
    {
        let mut l = self;
        l.locked = true;
        SpinLockGuard { lock: l }
    }
}

impl<V> SpinLockGuard<V> {
    /// The protected value, as the guard holds it.
    pub closed spec fn value(&self) -> V {
        self.lock.data
    }

    /// Reads the protected value.
    pub fn get(&self) -> (v: &V)
        ensures
            *v == self.value(),
    {
        &self.lock.data
    }

    /// Overwrites the protected value.
    pub fn set(&mut self, v: V)
        ensures
            final(self).value() == v,
    {
        self.lock.data = v;
    }

    /// Releases the lock, clearing the flag and returning the lock with the
    /// value as the guard last held it.
    pub fn unlock(self) -> (l: SpinLock<V>)
        ensures
            !l.is_locked(),
            l.value() == self.value(),
    {
        let mut l = self.lock;
        l.locked = false;
        l
    }
}

/// A critical-section workload: `n` rounds of acquire, add one to the
/// protected counter, release. Exactly one increment lands per acquisition,
/// so the final counter is the initial one plus the number of rounds.
pub fn increment_under_lock(lock: SpinLock<u64>, n: u64) -> (r: SpinLock<u64>)
    requires
        !lock.is_locked(),
        lock.value() + n <= u64::MAX,
    ensures
        !r.is_locked(),
        r.value() == lock.value() + n,
{
    let mut l = lock;
    let mut i: u64 = 0;
    while i < n
        invariant
            i <= n,
            !l.is_locked(),
            l.value() == lock.value() + i,
            lock.value() + n <= u64::MAX,
        decreases n - i,
    {
        let mut g = l.lock();
        let cur: u64 = *g.get();
        g.set(cur + 1);
        l = g.unlock();
        i = i + 1;
    }
    l
}

/// Who holds the lock after one event: an acquire wins only while nobody
/// holds it, and only the holder's own release clears it.
pub open spec fn lock_step(holder: Option<u64>, op: LockOp) -> Option<u64> {
    match op {
        LockOp::Acquire(t) => if holder is None {
            Some(t)
        } else {
            holder
        },
        LockOp::Release(t) => if holder == Some(t) {
            None
        } else {
            holder
        },
    }
}

/// Who holds the lock after a sequence of events, applied in order.
pub open spec fn lock_run(holder: Option<u64>, ops: Seq<LockOp>) -> Option<u64>
    decreases ops.len(),
{
    if ops.len() == 0 {
        holder
    } else {
        lock_run(lock_step(holder, ops.first()), ops.drop_first())
    }
}

/// A thread's step in a locked increment section: acquire the lock, read the
/// shared counter into a private register, write the incremented value back,
/// release. Reads and writes land only while the thread is the holder, and a
/// guard is given back only once its section is complete — the discipline
/// the [`SpinLockGuard`] enforces.
pub enum CsOp {
    Acquire(u64),
    ReadCounter(u64),
    WriteCounter(u64),
    Release(u64),
}

/// How one step moves the interleaved state of the workload — who holds the
/// lock, the shared counter, the private registers of threads that have read
/// but not yet written back, and how many increments have completed.
pub open spec fn cs_step(s: (Option<u64>, nat, Map<u64, nat>, nat), op: CsOp) -> (
    Option<u64>,
    nat,
    Map<u64, nat>,
    nat,
) {
    match op {
        CsOp::Acquire(t) => if s.0 is None {
            (Some(t), s.1, s.2, s.3)
        } else {
            s
        },
        CsOp::ReadCounter(t) => if s.0 == Some(t) && !s.2.dom().contains(t) {
            (s.0, s.1, s.2.insert(t, s.1), s.3)
        } else {
            s
        },
        CsOp::WriteCounter(t) => if s.0 == Some(t) && s.2.dom().contains(t) {
            (s.0, (s.2[t] + 1) as nat, s.2.remove(t), (s.3 + 1) as nat)
        } else {
            s
        },
        CsOp::Release(t) => if s.0 == Some(t) && !s.2.dom().contains(t) {
            (None, s.1, s.2, s.3)
        } else {
            s
        },
    }
}

/// The workload state after a sequence of steps, applied in order.
pub open spec fn cs_run(s: (Option<u64>, nat, Map<u64, nat>, nat), ops: Seq<CsOp>) -> (
    Option<u64>,
    nat,
    Map<u64, nat>,
    nat,
)
    decreases ops.len(),
{
    if ops.len() == 0 {
        s
    } else {
        cs_run(cs_step(s, ops.first()), ops.drop_first())
    }
}

/// The workload invariant: a thread mid-section is the holder, and its
/// register still matches the shared counter — nobody else has touched it.
pub open spec fn cs_inv(s: (Option<u64>, nat, Map<u64, nat>, nat)) -> bool {
    forall|t: u64| #[trigger] s.2.dom().contains(t) ==> s.0 == Some(t) && s.2[t] == s.1
}

/// One step preserves the invariant and the accounting: the counter moves in
/// lockstep with the number of completed increments.
pub proof fn lemma_cs_step(s: (Option<u64>, nat, Map<u64, nat>, nat), op: CsOp)
    requires
        cs_inv(s),
    ensures
        cs_inv(cs_step(s, op)),
        cs_step(s, op).1 + s.3 == s.1 + cs_step(s, op).3,
{
    let r = cs_step(s, op);
    match op {
        CsOp::Acquire(t) => {
            if s.0 is None {
                assert forall|u: u64|
                    r.2.dom().contains(u) implies r.0 == Some(u) && r.2[u] == r.1 by {
                    assert(s.2.dom().contains(u));
                }
            }
        },
        CsOp::ReadCounter(t) => {
            if s.0 == Some(t) && !s.2.dom().contains(t) {
                assert forall|u: u64|
                    r.2.dom().contains(u) implies r.0 == Some(u) && r.2[u] == r.1 by {
                    if u != t {
                        assert(s.2.dom().contains(u));
                    }
                }
            }
        },
        CsOp::WriteCounter(t) => {
            if s.0 == Some(t) && s.2.dom().contains(t) {
                assert forall|u: u64|
                    r.2.dom().contains(u) implies r.0 == Some(u) && r.2[u] == r.1 by {
                    assert(s.2.dom().contains(u));
                    assert(s.0 == Some(u));
                }
            }
        },
        CsOp::Release(t) => {
            if s.0 == Some(t) && !s.2.dom().contains(t) {
                assert forall|u: u64|
                    r.2.dom().contains(u) implies r.0 == Some(u) && r.2[u] == r.1 by {
                    assert(s.2.dom().contains(u));
                    assert(s.0 == Some(u));
                }
            }
        },
    }
}

/// No lost update: whatever the interleaving of any number of threads, every
/// completed locked increment adds exactly one to the shared counter — from
/// a state satisfying the invariant, the counter grows by exactly the number
/// of increments completed. N threads each completing L sections therefore
/// leave a counter started at zero on exactly N times L.
pub proof fn lemma_no_lost_updates(s: (Option<u64>, nat, Map<u64, nat>, nat), ops: Seq<CsOp>)
    requires
        cs_inv(s),
    ensures
        cs_inv(cs_run(s, ops)),
        cs_run(s, ops).1 + s.3 == s.1 + cs_run(s, ops).3,
    decreases ops.len(),
{
    if ops.len() > 0 {
        lemma_cs_step(s, ops.first());
        lemma_no_lost_updates(cs_step(s, ops.first()), ops.drop_first());
    }
}

/// Mutual exclusion: while thread `t` holds the lock, every acquire attempt
/// by any other thread fails — whatever the other threads do, until `t`
/// itself releases, `t` is still the holder.
pub proof fn lemma_mutual_exclusion(holder: Option<u64>, ops: Seq<LockOp>, t: u64)
    requires
        holder == Some(t),
        forall|i: int| 0 <= i < ops.len() ==> ops[i] != LockOp::Release(t),
    ensures
        lock_run(holder, ops) == Some(t),
    decreases ops.len(),
{
    if ops.len() > 0 {
        assert(ops.first() == ops[0]);
        assert(forall|i: int|
            0 <= i < ops.drop_first().len() ==> ops.drop_first()[i] == ops[i + 1]);
        lemma_mutual_exclusion(lock_step(holder, ops.first()), ops.drop_first(), t);
    }
}

} // verus!
