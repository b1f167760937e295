//! An interrupt-masking mutex wrapper.

use vstd::prelude::*;

use crate::interrupts::{read_disable, restore, Cpu, Flags, DISABLE};
use crate::mutex::RawMutex;

verus! {

/// An interrupt-safe mutex: wraps any raw mutex and keeps interrupts
/// disabled on the acquiring CPU for the whole critical section.
///
/// Acquisition disables interrupts *before* taking the inner lock, and
/// release re-enables them only *after* the inner lock is released. An
/// interrupt arriving between those points therefore never finds the lock
/// held on its own CPU, which is what makes the lock safe to take from both
/// normal and interrupt context.
///
/// While the inner mutex is held, `saved_flags` holds the interrupt flag
/// observed at acquisition; while it is free, `saved_flags` is [`DISABLE`].
pub struct RawInterruptMutex<I> {
    inner: I,
    saved_flags: Flags,
}

impl<I: RawMutex> RawInterruptMutex<I> {
    /// Whether the inner mutex is held.
    pub closed spec fn locked(&self) -> bool {
        self.inner.locked()
    }

    /// The saved interrupt-flag word.
    pub closed spec fn saved(&self) -> Flags {
        self.saved_flags
    }

    /// The inner mutex's own invariant.
    pub closed spec fn inner_inv(&self) -> bool {
        self.inner.inv()
    }

    /// While unlocked, the saved flag word is the disabled sentinel.
    pub open spec fn wf(&self) -> bool {
        self.inner_inv() && (!self.locked() ==> self.saved() == DISABLE)
    }

    /// Wrap an unlocked raw mutex.
    pub fn new(inner: I) -> (m: Self)
        requires
            inner.inv(),
            !inner.locked(),
        ensures
            m.wf(),
            !m.locked(),
    {
        RawInterruptMutex { inner, saved_flags: DISABLE }
    }

    /// A fresh, unlocked interrupt-safe mutex.
    pub fn init() -> (m: Self)
        ensures
            m.wf(),
            !m.locked(),
    {
        RawInterruptMutex { inner: I::init(), saved_flags: DISABLE }
    }

    /// Disable interrupts, acquire the inner lock, and remember the prior
    /// interrupt flag.
    ///
    /// When this returns, interrupts are disabled and stay disabled until
    /// the matching [`unlock`](Self::unlock): the critical section lies
    /// strictly inside the interrupts-masked region.
    pub fn lock(&mut self, cpu: &mut Cpu)
        requires
            old(self).wf(),
            !old(self).locked(),
        ensures
            final(self).wf(),
            final(self).locked(),
            final(self).saved() == old(cpu).interrupts_enabled(),
            !final(cpu).interrupts_enabled(),
    {
        let flags = read_disable(cpu);
        self.inner.lock();
        self.saved_flags = flags;
    }

    /// Attempt the inner lock once with interrupts disabled; on failure the
    /// prior interrupt flag is restored immediately.
    pub fn try_lock(&mut self, cpu: &mut Cpu) -> (acquired: bool)
        requires
            old(self).wf(),
        ensures
            final(self).wf(),
            acquired == !old(self).locked(),
            acquired ==> final(self).locked() && final(self).saved() == old(
                cpu,
            ).interrupts_enabled() && !final(cpu).interrupts_enabled(),
            !acquired ==> *final(self) == *old(self) && final(cpu).interrupts_enabled() == old(
                cpu,
            ).interrupts_enabled(),
    {
        let flags = read_disable(cpu);
        let ok = self.inner.try_lock();
        if ok {
            self.saved_flags = flags;
        } else {
            restore(cpu, flags);
        }
        ok
    }

    /// Release the inner lock, then restore the interrupt flag saved at
    /// acquisition. Only the holder may call this.
    ///
    /// The restore comes after the inner release on purpose: were interrupts
    /// re-enabled first, an interrupt taken in between could try to
    /// re-acquire the still-held lock on the same CPU and deadlock.
    pub fn unlock(&mut self, cpu: &mut Cpu)
        requires
            old(self).wf(),
            old(self).locked(),
        ensures
            final(self).wf(),
            !final(self).locked(),
            final(self).saved() == DISABLE,
            final(cpu).interrupts_enabled() == (old(cpu).interrupts_enabled() || old(self).saved()
                != DISABLE),
    {
        let flags = self.saved_flags;
        self.saved_flags = DISABLE;
        self.inner.unlock();
        restore(cpu, flags);
    }

    /// Whether the inner mutex is held.
    pub fn is_locked(&self) -> (r: bool)
        ensures
            r == self.locked(),
    {
        self.inner.is_locked()
    }
}

} // verus!
