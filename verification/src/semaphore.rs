//! A counting semaphore: at most `max` permits are held at any time.
//!
//! The counter records permits currently *held* (not permits remaining), as
//! an integer in `[0, max]`. The verified core is the guarded transition a
//! thread performs once it owns the semaphore's internal mutex; the blocking
//! shell around it loops on [`Semaphore::try_wait`] and parks the thread on a
//! condition variable while no permit is free.

use vstd::prelude::*;

verus! {

/// An event in the life of a semaphore: one thread completing a `wait`
/// (taking a permit) or a `post` (giving one back).
pub enum SemOp {
    Wait,
    Post,
}

/// A counting semaphore's state: `count` permits of `max` currently held.
pub struct Semaphore {
    pub(crate) count: isize,
    pub(crate) max: isize,
}

impl Semaphore {
    /// The number of permits currently held.
    pub closed spec fn permits(&self) -> int {
        self.count as int
    }

    /// The fixed capacity the semaphore was constructed with.
    pub closed spec fn capacity(&self) -> int {
        self.max as int
    }

    /// Well-formed: the held count stays within `[0, max]`.
    pub open spec fn wf(&self) -> bool {
        0 < self.capacity() && 0 <= self.permits() <= self.capacity()
    }

    /// Creates a semaphore with capacity `max` and no permit held.
    pub fn new(max: isize) -> (s: Semaphore)
        requires
            max > 0,
        ensures
            s.wf(),
            s.permits() == 0,
            s.capacity() == max as int,
    {
        Semaphore { count: 0, max }
    }

    /// Checked construction: a non-positive capacity is refused, every time.
    pub fn try_new(max: isize) -> (r: Option<Semaphore>)
        ensures
            max > 0 ==> (r matches Some(s) && s.wf() && s.permits() == 0 && s.capacity()
                == max as int),
            max <= 0 ==> r is None,
    {
        if max > 0 {
            Some(Semaphore::new(max))
        } else {
            None
        }
    }

    /// The grant step of `wait`: takes a permit. The blocking shell calls
    /// this only after [`Semaphore::try_wait`] (under the internal mutex) has
    /// observed a free permit; a call while all permits are held would block
    /// forever there, so it is excluded here.
    pub fn wait(&mut self)
        requires
            old(self).wf(),
            old(self).permits() < old(self).capacity(),
        ensures
            final(self).wf(),
            final(self).permits() == old(self).permits() + 1,
            final(self).capacity() == old(self).capacity(),
    {
        self.count = self.count + 1;
    }

    /// One round of the wait loop: takes a permit if one is free, and reports
    /// whether it did. A `false` result is the signal to block and retry.
    pub fn try_wait(&mut self) -> (granted: bool)
        requires
            old(self).wf(),
        ensures
            final(self).wf(),
            granted <==> old(self).permits() < old(self).capacity(),
            final(self).permits() == sem_step(old(self).permits(), old(self).capacity(), SemOp::Wait),
            final(self).capacity() == old(self).capacity(),
    {
        if self.count < self.max {
            self.count = self.count + 1;
            true
        } else {
            false
        }
    }

    /// Releases one permit. Returns whether a blocked waiter should be woken:
    /// true exactly when the new count leaves room for one. Only a permit
    /// holder may post, so at least one permit is held on entry.
    pub fn post(&mut self) -> (notify: bool)
        requires
            old(self).wf(),
            old(self).permits() > 0,
        ensures
            final(self).wf(),
            final(self).permits() == old(self).permits() - 1,
            final(self).capacity() == old(self).capacity(),
            notify <==> final(self).permits() < final(self).capacity(),
    {
        self.count = self.count - 1;
        self.count < self.max
    }

    /// Reads the number of permits currently held.
    pub fn held(&self) -> (n: isize)
        ensures
            n as int == self.permits(),
    {
        self.count
    }

    /// Reads the capacity the semaphore was constructed with.
    pub fn limit(&self) -> (n: isize)
        ensures
            n as int == self.capacity(),
    {
        self.max
    }
}

/// How one event moves the held count: a `Wait` completes only while a permit
/// is free, a `Post` only while one is held — otherwise the thread is still
/// blocked and the count is unchanged.
pub open spec fn sem_step(count: int, max: int, op: SemOp) -> int {
    match op {
        SemOp::Wait => if count < max {
            count + 1
        } else {
            count
        },
        SemOp::Post => if count > 0 {
            count - 1
        } else {
            count
        },
    }
}

/// The held count after a sequence of events, applied in order.
pub open spec fn sem_run(count: int, max: int, ops: Seq<SemOp>) -> int
    decreases ops.len(),
{
    if ops.len() == 0 {
        count
    } else {
        sem_run(sem_step(count, max, ops.first()), max, ops.drop_first())
    }
}

/// Semaphore bound: from any state with between zero and `max` permits held,
/// no sequence of wait and post events ever drives the held count above
/// `max` or below zero.
pub proof fn lemma_semaphore_bound(count: int, max: int, ops: Seq<SemOp>)
    requires
        0 <= count <= max,
    ensures
        0 <= sem_run(count, max, ops) <= max,
    decreases ops.len(),
{
    if ops.len() > 0 {
        lemma_semaphore_bound(sem_step(count, max, ops.first()), max, ops.drop_first());
    }
}

} // verus!
