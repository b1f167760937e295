//! Synchronization primitives for kernels and other freestanding environments.
//!
//! All waiting is busy-waiting paced by an exponential [`backoff::Backoff`]
//! pacer; there is no scheduler to yield to. The locks are modeled as
//! sequential state machines over plain words: every operation carries a
//! contract that pins down the exact transition it performs, and the
//! classical lock invariants (mutual exclusion, FIFO service, the
//! reader/writer coexistence rules) are proved as lemmas over sequences of
//! those transitions.

pub mod backoff;
pub mod interrupts;
pub mod mutex;
pub mod rwlock;

pub use backoff::Backoff;
pub use interrupts::without_interrupts;
pub use mutex::{RawInterruptMutex, RawInterruptSpinMutex, RawInterruptTicketMutex};
pub use mutex::{RawMutex, RawSpinMutex, RawTicketMutex};
pub use rwlock::RawRwSpinLock;
