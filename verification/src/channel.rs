//! A bounded multi-producer multi-consumer channel built atop the semaphore.
//!
//! One [`Semaphore`] limits the in-flight items (a permit per queued item), a
//! mutex-protected FIFO queue stores the items, and a condition variable
//! wakes blocked receivers. The verified core is the state those three
//! protect and the steps `send` and `recv` perform on it once inside the
//! mutex; the blocking shell retries a refused [`Sender::send`] after a
//! receiver frees a slot (backpressure) and parks a receiver on the
//! condition variable while [`Receiver::recv`] finds the queue empty. Items
//! enqueued are delivered each exactly once, in queue order; across
//! concurrent producers no further ordering is promised.

use vstd::prelude::*;

use crate::semaphore::Semaphore;

verus! {

/// An event in the life of a channel: a producer's send step carrying its
/// item, or a consumer's receive step.
pub enum ChanOp<T> {
    Send(T),
    Recv,
}

/// The channel's shared state: the queued items and the semaphore that limits them.
/// Invariant: one semaphore permit is held per queued item, so the queue
/// never exceeds the capacity.
pub struct Channel<T> {
    pub(crate) queue: Vec<T>,
    pub(crate) sem: Semaphore,
}

/// The producers' handle of the pair; cloned once per producer thread. It
/// carries the capacity of the channel it was created with.
#[derive(Clone, Copy)]
pub struct Sender {
    pub(crate) cap: isize,
}

/// The consumers' handle of the pair; cloned once per consumer thread. It
/// carries the capacity of the channel it was created with.
#[derive(Clone, Copy)]
pub struct Receiver {
    pub(crate) cap: isize,
}

impl<T> Channel<T> {
    /// The queued, not-yet-received items, oldest first.
    pub closed spec fn items(&self) -> Seq<T> {
        self.queue@
    }

    /// The fixed capacity the channel was constructed with.
    pub closed spec fn cap(&self) -> int {
        self.sem.capacity()
    }

    /// The semaphore holds one permit per queued item.
    pub closed spec fn permits_match(&self) -> bool {
        self.sem.wf() && self.sem.permits() == self.items().len()
    }

    /// Well-formed: the permit count matches the queue, so at most `cap` items are
    /// ever in flight.
    pub open spec fn wf(&self) -> bool {
        self.permits_match() && 0 < self.cap() && self.items().len() <= self.cap()
    }

    /// The number of items currently queued.
    pub fn len(&self) -> (n: usize)
        ensures
            n as int == self.items().len(),
    {
        self.queue.len()
    }

    /// Reads the capacity the channel was constructed with.
    pub fn limit(&self) -> (n: isize)
        requires
            self.wf(),
        ensures
            n as int == self.cap(),
    {
        self.sem.limit()
    }
}

impl Sender {
    /// The capacity of the channel the handle belongs to.
    pub closed spec fn spec_cap(&self) -> int {
        self.cap as int
    }

    /// The send step, inside the mutex: take a permit and enqueue. Succeeds
    /// exactly when the channel has free capacity, and then the item goes to
    /// the back of the queue and one blocked receiver should be woken. A
    /// refused send hands the item back — the backpressure signal: the
    /// blocking shell retries once a receive has freed a slot, so a producer
    /// stalls rather than drop data.
    pub fn send<T>(&self, chan: &mut Channel<T>, data: T) -> (refused: Option<T>)
        requires
            old(chan).wf(),
            self.spec_cap() == old(chan).cap(),
        ensures
            final(chan).wf(),
            final(chan).cap() == old(chan).cap(),
            old(chan).items().len() < old(chan).cap() ==> (refused is None && final(chan).items()
                == old(chan).items().push(data)),
            old(chan).items().len() >= old(chan).cap() ==> (refused == Some(data)
                && final(chan).items() == old(chan).items()),
    {
        if chan.sem.try_wait() {
            chan.queue.push(data);
            None
        } else {
            Some(data)
        }
    }
}

impl Receiver {
    /// The capacity of the channel the handle belongs to.
    pub closed spec fn spec_cap(&self) -> int {
        self.cap as int
    }

    /// The receive step, inside the mutex: dequeue the oldest item and give
    /// its permit back to the semaphore, letting a blocked sender
    /// proceed. On an empty queue nothing changes and the blocking shell
    /// parks on the condition variable until a send has queued an item.
    pub fn recv<T>(&self, chan: &mut Channel<T>) -> (r: Option<T>)
        requires
            old(chan).wf(),
            self.spec_cap() == old(chan).cap(),
        ensures
            final(chan).wf(),
            final(chan).cap() == old(chan).cap(),
            old(chan).items().len() > 0 ==> (r == Some(old(chan).items()[0])
                && final(chan).items() == old(chan).items().drop_first()),
            old(chan).items().len() == 0 ==> (r is None && final(chan).items() == old(
                chan,
            ).items()),
    {
        if chan.queue.len() > 0 {
            let data = chan.queue.remove(0);
            let _notify: bool = chan.sem.post();
            proof {
                assert(chan.queue@ =~= old(chan).queue@.drop_first());
            }
            Some(data)
        } else {
            None
        }
    }
}

/// Creates a linked sender/receiver pair and the shared state they operate
/// on: an empty queue limited by a fresh semaphore of size `max`.
pub fn channel<T>(max: isize) -> (r: (Sender, Receiver, Channel<T>))
    requires
        max > 0,
    ensures
        r.2.wf(),
        r.2.items() == Seq::<T>::empty(),
        r.2.cap() == max as int,
        r.0.spec_cap() == max as int,
        r.1.spec_cap() == max as int,
{
    let sem = Semaphore::new(max);
    let chan = Channel { queue: Vec::new(), sem };
    (Sender { cap: max }, Receiver { cap: max }, chan)
}

/// Checked construction: a non-positive capacity is refused, every time.
pub fn try_channel<T>(max: isize) -> (r: Option<(Sender, Receiver, Channel<T>)>)
    ensures
        max > 0 ==> (r matches Some(t) && t.2.wf() && t.2.items() == Seq::<T>::empty() && t.2.cap()
            == max as int),
        max <= 0 ==> r is None,
{
    if max > 0 {
        Some(channel(max))
    } else {
        None
    }
}

/// The trace state: the queued items, the items sent so far (accepted
/// sends, in queue order), and the items received so far, in order.
pub open spec fn chan_step<T>(s: (Seq<T>, Seq<T>, Seq<T>), cap: int, op: ChanOp<T>) -> (
    Seq<T>,
    Seq<T>,
    Seq<T>,
) {
    match op {
        ChanOp::Send(v) => if s.0.len() < cap {
            (s.0.push(v), s.1.push(v), s.2)
        } else {
            s
        },
        ChanOp::Recv => if s.0.len() > 0 {
            (s.0.drop_first(), s.1, s.2.push(s.0[0]))
        } else {
            s
        },
    }
}

/// The trace state after a sequence of events, applied in order.
pub open spec fn chan_run<T>(s: (Seq<T>, Seq<T>, Seq<T>), cap: int, ops: Seq<ChanOp<T>>) -> (
    Seq<T>,
    Seq<T>,
    Seq<T>,
)
    decreases ops.len(),
{
    if ops.len() == 0 {
        s
    } else {
        chan_run(chan_step(s, cap, ops.first()), cap, ops.drop_first())
    }
}

/// One event preserves the accounting — received items followed by queued
/// items are the accepted sends — and the capacity bound.
pub proof fn lemma_chan_step<T>(s: (Seq<T>, Seq<T>, Seq<T>), cap: int, op: ChanOp<T>)
    requires
        s.2 + s.0 == s.1,
        s.0.len() <= cap,
    ensures
        chan_step(s, cap, op).2 + chan_step(s, cap, op).0 == chan_step(s, cap, op).1,
        chan_step(s, cap, op).0.len() <= cap,
{
    let t = chan_step(s, cap, op);
    match op {
        ChanOp::Send(v) => {
            if s.0.len() < cap {
                assert(t.2 + t.0 =~= (s.2 + s.0).push(v));
                assert(t.1 =~= (s.2 + s.0).push(v));
            }
        },
        ChanOp::Recv => {
            if s.0.len() > 0 {
                assert(t.2 + t.0 =~= s.2 + s.0);
            }
        },
    }
}

/// No loss, no duplication: over any interleaving of sends and receives —
/// starting from a state whose accounting balances, as a fresh channel's
/// does — the items received, followed by those still queued, are exactly
/// the items accepted for sending: each delivered exactly once, in queue
/// order. Along the way the queue never outgrows the capacity.
pub proof fn lemma_no_loss_no_duplication<T>(
    s: (Seq<T>, Seq<T>, Seq<T>),
    cap: int,
    ops: Seq<ChanOp<T>>,
)
    requires
        s.2 + s.0 == s.1,
        s.0.len() <= cap,
    ensures
        chan_run(s, cap, ops).2 + chan_run(s, cap, ops).0 == chan_run(s, cap, ops).1,
        chan_run(s, cap, ops).0.len() <= cap,
    decreases ops.len(),
{
    if ops.len() > 0 {
        lemma_chan_step(s, cap, ops.first());
        lemma_no_loss_no_duplication(chan_step(s, cap, ops.first()), cap, ops.drop_first());
    }
}

/// Backpressure: a send on a full channel changes nothing — the producer is
/// held back, the item is not dropped — and once one receive has freed a
/// slot, the retried send is accepted and enqueues the item.
pub proof fn lemma_backpressure<T>(s: (Seq<T>, Seq<T>, Seq<T>), cap: int, v: T)
    requires
        cap >= 1,
        s.0.len() == cap,
    ensures
        chan_step(s, cap, ChanOp::Send(v)) == s,
        chan_step(chan_step(s, cap, ChanOp::Recv), cap, ChanOp::Send(v)).0 == s.0.drop_first().push(
            v,
        ),
{
}

} // verus!
