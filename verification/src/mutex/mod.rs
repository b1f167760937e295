//! Mutual-exclusion locks: the raw-mutex contract, a test-and-test-and-set
//! spin mutex, a FIFO ticket mutex, and an interrupt-masking wrapper that
//! composes with either.

use vstd::prelude::*;

pub mod interrupt;
pub mod spin;
pub mod ticket;

pub use interrupt::RawInterruptMutex;
pub use spin::RawSpinMutex;
pub use ticket::RawTicketMutex;

verus! {

/// The raw-mutex contract: a lock over bare state, without a payload.
///
/// `locked` is the single abstract fact every implementation exposes: whether
/// a grant is currently outstanding. Blocking acquisition spins until the
/// lock is free; on a single execution context that wait can only end if the
/// lock is free when it starts, which is what `lock`'s precondition states.
/// Release is the holder's obligation: `unlock` demands the lock be held.
pub trait RawMutex: Sized {
    /// The implementation's internal well-formedness invariant; constructors
    /// establish it and every operation preserves it.
    spec fn inv(&self) -> bool;

    /// Whether a grant is currently outstanding.
    spec fn locked(&self) -> bool;

    /// A fresh, unlocked mutex.
    fn init() -> (m: Self)
        ensures
            m.inv(),
            !m.locked(),
    ;

    /// Acquire the lock, spinning until it is granted.
    fn lock(&mut self)
        requires
            old(self).inv(),
            !old(self).locked(),
        ensures
            final(self).inv(),
            final(self).locked(),
    ;

    /// Attempt to acquire the lock once, without blocking.
    fn try_lock(&mut self) -> (acquired: bool)
        requires
            old(self).inv(),
        ensures
            final(self).inv(),
            acquired == !old(self).locked(),
            acquired ==> final(self).locked(),
            !acquired ==> *final(self) == *old(self),
    ;

    /// Release the lock. Only the holder may call this.
    fn unlock(&mut self)
        requires
            old(self).inv(),
            old(self).locked(),
        ensures
            final(self).inv(),
            !final(self).locked(),
    ;

    /// Whether the lock is currently held.
    fn is_locked(&self) -> (r: bool)
        ensures
            r == self.locked(),
    ;
}

/// An interrupt-safe spin mutex.
pub type RawInterruptSpinMutex = RawInterruptMutex<RawSpinMutex>;

/// An interrupt-safe ticket mutex.
pub type RawInterruptTicketMutex = RawInterruptMutex<RawTicketMutex>;

} // verus!
