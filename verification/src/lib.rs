//! Low-level thread-synchronization primitives: a busy-wait mutex, a
//! queue-based fair mutex, a counting semaphore, and a bounded blocking
//! channel built atop the semaphore.
//!
//! Each primitive is split into a verified decision core — the state held
//! under the host's atomic or mutex primitives, and the transitions a thread
//! performs on it — and a thin blocking shell that an embedding program
//! builds from the host's OS primitives (condition variables, busy polling).
//! The cores here carry exact contracts; module-level trace models state and
//! prove the laws the primitives are used for: mutual exclusion, the
//! semaphore bound, FIFO fairness, and loss-free bounded delivery.

pub mod channel;
pub mod mcs;
pub mod semaphore;
pub mod spinlock;
