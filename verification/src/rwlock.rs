//! A spinning, read-preferring readers-writer lock with exponential backoff.
//!
//! One machine word encodes the whole state: bit 0 flags an exclusive
//! (writer) holder, bit 1 an upgradable reader, and the remaining bits count
//! plain shared readers (the word moves in steps of [`SHARED`]). The word's
//! coexistence rules — at most one writer, at most one upgradable reader,
//! writers never beside readers — are proved over whole executions by
//! [`lemma_rw_holders`] and [`lemma_rw_exclusion`].

use vstd::prelude::*;

use crate::backoff::Backoff;

verus! {

/// One plain shared reader, as a step of the state word.
pub const SHARED: u64 = 4;

/// The upgradable-reader flag bit.
pub const UPGRADABLE: u64 = 2;

/// The exclusive (writer) flag bit.
pub const EXCLUSIVE: u64 = 1;

/// The number of plain shared readers encoded in word `w`.
pub open spec fn shared_count(w: u64) -> u64 {
    w >> 2
}

/// Whether word `w` has the upgradable-reader bit set.
pub open spec fn has_upgradable(w: u64) -> bool {
    w & UPGRADABLE == UPGRADABLE
}

/// Whether word `w` has the exclusive bit set.
pub open spec fn has_exclusive(w: u64) -> bool {
    w & EXCLUSIVE == EXCLUSIVE
}

/// The overflow guard's threshold: a shared acquisition that reads a prior
/// word above this is treated as reader-count overflow and rolled back.
pub open spec fn overflow_threshold() -> int {
    u64::MAX as int / 2
}

/// Well-formedness of a reachable state word: a writer excludes every
/// reader, and the word stays within one shared step of the overflow
/// threshold.
pub open spec fn rw_wf(w: u64) -> bool {
    &&& has_exclusive(w) ==> shared_count(w) == 0 && !has_upgradable(w)
    &&& w <= overflow_threshold() + SHARED
}

proof fn lemma_rw_constants()
    by (bit_vector)
    ensures
        shared_count(0) == 0 && !has_upgradable(0) && !has_exclusive(0),
        shared_count(EXCLUSIVE) == 0 && !has_upgradable(EXCLUSIVE) && has_exclusive(EXCLUSIVE),
        shared_count(UPGRADABLE) == 0 && has_upgradable(UPGRADABLE) && !has_exclusive(UPGRADABLE),
        (EXCLUSIVE ^ (UPGRADABLE | EXCLUSIVE)) == UPGRADABLE,
        SHARED <= u64::MAX / 2,
        shared_count(SHARED) == 1 && !has_upgradable(SHARED) && !has_exclusive(SHARED),
{
}

proof fn lemma_shared_add(w: u64)
    by (bit_vector)
    requires
        w <= u64::MAX / 2 + 4,
    ensures
        w + 4 <= u64::MAX,
        shared_count((w + 4) as u64) == shared_count(w) + 1,
        has_upgradable((w + 4) as u64) == has_upgradable(w),
        has_exclusive((w + 4) as u64) == has_exclusive(w),
{
}

proof fn lemma_shared_sub(w: u64)
    by (bit_vector)
    requires
        shared_count(w) > 0,
    ensures
        w >= 4,
        shared_count((w - 4) as u64) == shared_count(w) - 1,
        has_upgradable((w - 4) as u64) == has_upgradable(w),
        has_exclusive((w - 4) as u64) == has_exclusive(w),
{
}

proof fn lemma_or_upgradable(w: u64)
    by (bit_vector)
    requires
        !has_upgradable(w),
        w <= u64::MAX / 2 + 4,
    ensures
        (w | UPGRADABLE) == w + 2,
        w + 2 <= u64::MAX,
        has_upgradable((w + 2) as u64),
        has_exclusive((w + 2) as u64) == has_exclusive(w),
        shared_count((w + 2) as u64) == shared_count(w),
        (w & (UPGRADABLE | EXCLUSIVE) == 0) == !has_exclusive(w),
        !has_exclusive(w) ==> w + 2 <= u64::MAX / 2 + 4,
        w & UPGRADABLE == 0,
{
}

proof fn lemma_or_upgradable_set(w: u64)
    by (bit_vector)
    requires
        has_upgradable(w),
    ensures
        (w | UPGRADABLE) == w,
        w & (UPGRADABLE | EXCLUSIVE) != 0,
        w & UPGRADABLE != 0,
{
}

proof fn lemma_clear_exclusive(w: u64)
    by (bit_vector)
    requires
        has_exclusive(w),
    ensures
        (w & !EXCLUSIVE) == w - 1,
        !has_exclusive((w - 1) as u64),
        has_upgradable((w - 1) as u64) == has_upgradable(w),
        shared_count((w - 1) as u64) == shared_count(w),
{
}

proof fn lemma_clear_upgradable(w: u64)
    by (bit_vector)
    requires
        has_upgradable(w),
    ensures
        (w & !UPGRADABLE) == w - 2,
        !has_upgradable((w - 2) as u64),
        has_exclusive((w - 2) as u64) == has_exclusive(w),
        shared_count((w - 2) as u64) == shared_count(w),
{
}

proof fn lemma_only_exclusive(w: u64)
    by (bit_vector)
    requires
        has_exclusive(w),
        !has_upgradable(w),
        shared_count(w) == 0,
    ensures
        w == EXCLUSIVE,
{
}

proof fn lemma_only_upgradable(w: u64)
    by (bit_vector)
    requires
        has_upgradable(w),
        !has_exclusive(w),
        shared_count(w) == 0,
    ensures
        w == UPGRADABLE,
{
}

proof fn lemma_shared_mask(w: u64)
    by (bit_vector)
    ensures
        (w & !(EXCLUSIVE | UPGRADABLE) != 0) == (shared_count(w) != 0),
{
}

proof fn lemma_nonzero(w: u64)
    by (bit_vector)
    ensures
        (w != 0) == (shared_count(w) != 0 || has_upgradable(w) || has_exclusive(w)),
{
}

/// The bit roles of a state word, in ordinary arithmetic terms: bit 0 is
/// the exclusive flag, bit 1 the upgradable flag, and the bits above count
/// the shared holders.
pub proof fn lemma_word_view(w: u64)
    by (bit_vector)
    ensures
        has_exclusive(w) == (w % 2 == 1),
        has_upgradable(w) == ((w / 2) % 2 == 1),
        shared_count(w) == w / 4,
{
}

/// A readers-writer spinlock over one state word.
///
/// Shared acquisition is optimistic: it adds a reader slot with one atomic
/// step and rolls back if a writer turned out to hold the word. Writer
/// acquisition demands the whole word be zero, so the lock is
/// read-preferring: readers may keep joining while a writer waits.
pub struct RawRwSpinLock {
    lock: u64,
}

impl View for RawRwSpinLock {
    type V = u64;

    closed spec fn view(&self) -> u64 {
        self.lock
    }
}

impl RawRwSpinLock {
    /// Well-formedness of the current state word.
    pub open spec fn wf(&self) -> bool {
        rw_wf(self@)
    }

    /// A fresh, unlocked lock: the word is zero.
    pub fn new() -> (m: Self)
        ensures
            m@ == 0,
            shared_count(m@) == 0,
            !has_upgradable(m@),
            !has_exclusive(m@),
            m.wf(),
    {
        proof {
            lemma_rw_constants();
        }
        RawRwSpinLock { lock: 0 }
    }

    /// A lock whose state word is `word`, for inspecting chosen states.
    pub fn from_raw(word: u64) -> (m: Self)
        ensures
            m@ == word,
    {
        RawRwSpinLock { lock: word }
    }

    /// The current state word.
    pub fn raw(&self) -> (w: u64)
        ensures
            w == self@,
    {
        self.lock
    }

    /// Add one reader slot and return the prior word. The caller must keep
    /// the word under the overflow threshold; [`try_lock_shared_checked`]
    /// is the entry that detects the threshold instead.
    ///
    /// [`try_lock_shared_checked`]: Self::try_lock_shared_checked
    fn acquire_shared(&mut self) -> (prior: u64)
        requires
            old(self)@ <= overflow_threshold(),
        ensures
            prior == old(self)@,
            final(self)@ == old(self)@ + 4,
            shared_count(final(self)@) == shared_count(old(self)@) + 1,
            has_upgradable(final(self)@) == has_upgradable(old(self)@),
            has_exclusive(final(self)@) == has_exclusive(old(self)@),
    {
        let value = self.lock;
        proof {
            lemma_shared_add(value);
        }
        self.lock = self.lock + SHARED;
        value
    }

    /// Optimistically add a reader slot, then check what was there.
    ///
    /// Returns `None` when the prior word was over the overflow threshold:
    /// the slot is taken back, the word is exactly as before the call, and
    /// the caller must treat the lock as leaked (a reader count this large
    /// can only come from runaway reader leakage). Returns `Some(acquired)`
    /// otherwise, where `acquired` is false — and the word again unchanged —
    /// exactly when a writer held the lock.
    pub fn try_lock_shared_checked(&mut self) -> (r: Option<bool>)
        requires
            rw_wf(old(self)@),
        ensures
            r is None <==> old(self)@ > overflow_threshold(),
            r == Some(true) <==> old(self)@ <= overflow_threshold() && !has_exclusive(old(self)@),
            r == Some(true) ==> final(self)@ == old(self)@ + 4 && shared_count(final(self)@)
                == shared_count(old(self)@) + 1 && has_upgradable(final(self)@) == has_upgradable(
                old(self)@,
            ) && !has_exclusive(final(self)@),
            r != Some(true) ==> *final(self) == *old(self),
            final(self)@ == rw_step(old(self)@, RwOp::TryLockSharedChecked),
            rw_wf(final(self)@),
    {
        let value = self.lock;
        proof {
            lemma_shared_add(value);
        }
        self.lock = self.lock + SHARED;

        if value > u64::MAX / 2 {
            proof {
                lemma_shared_sub(self.lock);
            }
            self.lock = self.lock - SHARED;
            return None;
        }

        let acquired = value & EXCLUSIVE != EXCLUSIVE;

        if !acquired {
            self.unlock_shared();
        }

        Some(acquired)
    }

    /// Attempt a shared acquisition once: optimistically add a reader slot,
    /// and roll back if a writer holds the lock.
    pub fn try_lock_shared(&mut self) -> (acquired: bool)
        requires
            rw_wf(old(self)@),
            old(self)@ <= overflow_threshold(),
        ensures
            acquired == !has_exclusive(old(self)@),
            acquired ==> final(self)@ == old(self)@ + 4 && shared_count(final(self)@)
                == shared_count(old(self)@) + 1 && has_upgradable(final(self)@) == has_upgradable(
                old(self)@,
            ) && !has_exclusive(final(self)@),
            !acquired ==> *final(self) == *old(self),
            final(self)@ == rw_step(old(self)@, RwOp::TryLockShared),
            rw_wf(final(self)@),
    {
        match self.try_lock_shared_checked() {
            Some(acquired) => acquired,
            None => false,
        }
    }

    /// Acquire a shared (reader) slot, spinning while a writer holds the
    /// lock.
    pub fn lock_shared(&mut self)
        requires
            rw_wf(old(self)@),
            !has_exclusive(old(self)@),
            old(self)@ <= overflow_threshold(),
        ensures
            final(self)@ == old(self)@ + 4,
            shared_count(final(self)@) == shared_count(old(self)@) + 1,
            has_upgradable(final(self)@) == has_upgradable(old(self)@),
            !has_exclusive(final(self)@),
            final(self)@ == rw_step(old(self)@, RwOp::LockShared),
            rw_wf(final(self)@),
    {
        let mut backoff = Backoff::new();
        loop
            invariant_except_break
                *self == *old(self),
                rw_wf(self@),
                !has_exclusive(self@),
                self@ <= overflow_threshold(),
            invariant
                backoff.wf(),
            ensures
                self@ == old(self)@ + 4,
                shared_count(self@) == shared_count(old(self)@) + 1,
                has_upgradable(self@) == has_upgradable(old(self)@),
                !has_exclusive(self@),
                rw_wf(self@),
            decreases 0int,
        {
            if self.try_lock_shared() {
                break;
            }
            backoff.snooze();
        }
    }

    /// Release one shared slot. Only a shared holder may call this.
    pub fn unlock_shared(&mut self)
        requires
            shared_count(old(self)@) > 0,
        ensures
            final(self)@ == old(self)@ - 4,
            shared_count(final(self)@) == shared_count(old(self)@) - 1,
            has_upgradable(final(self)@) == has_upgradable(old(self)@),
            has_exclusive(final(self)@) == has_exclusive(old(self)@),
            final(self)@ == rw_step(old(self)@, RwOp::UnlockShared),
            rw_wf(old(self)@) ==> rw_wf(final(self)@),
    {
        proof {
            lemma_shared_sub(self.lock);
        }
        self.lock = self.lock - SHARED;
    }

    /// Acquire the exclusive (writer) lock, spinning until the whole word is
    /// free: no readers, no upgradable reader, no writer.
    pub fn lock_exclusive(&mut self)
        requires
            rw_wf(old(self)@),
            old(self)@ == 0,
        ensures
            final(self)@ == EXCLUSIVE,
            has_exclusive(final(self)@),
            final(self)@ == rw_step(old(self)@, RwOp::LockExclusive),
            rw_wf(final(self)@),
    {
        let mut backoff = Backoff::new();
        loop
            invariant_except_break
                *self == *old(self),
                rw_wf(self@),
                self@ == 0,
            invariant
                backoff.wf(),
            ensures
                self@ == EXCLUSIVE,
                has_exclusive(self@),
                rw_wf(self@),
            decreases 0int,
        {
            if self.try_lock_exclusive() {
                break;
            }
            backoff.snooze();
        }
    }

    /// Attempt the writer lock once: a single swap of the word from zero to
    /// [`EXCLUSIVE`].
    pub fn try_lock_exclusive(&mut self) -> (acquired: bool)
        requires
            rw_wf(old(self)@),
        ensures
            acquired == (old(self)@ == 0),
            acquired ==> final(self)@ == EXCLUSIVE && has_exclusive(final(self)@),
            !acquired ==> *final(self) == *old(self),
            final(self)@ == rw_step(old(self)@, RwOp::TryLockExclusive),
            rw_wf(final(self)@),
    {
        proof {
            lemma_rw_constants();
        }
        if self.lock == 0 {
            self.lock = EXCLUSIVE;
            true
        } else {
            false
        }
    }

    /// Release the writer lock by clearing the exclusive bit. Only the
    /// writer may call this.
    pub fn unlock_exclusive(&mut self)
        requires
            has_exclusive(old(self)@),
        ensures
            final(self)@ == old(self)@ - 1,
            !has_exclusive(final(self)@),
            has_upgradable(final(self)@) == has_upgradable(old(self)@),
            shared_count(final(self)@) == shared_count(old(self)@),
            final(self)@ == rw_step(old(self)@, RwOp::UnlockExclusive),
            rw_wf(old(self)@) ==> final(self)@ == 0 && rw_wf(final(self)@),
    {
        proof {
            lemma_clear_exclusive(self.lock);
            if rw_wf(self@) {
                lemma_only_exclusive(self.lock);
                lemma_rw_constants();
            }
        }
        self.lock = self.lock & !EXCLUSIVE;
    }

    /// Whether any holder is present: the word is non-zero.
    pub fn is_locked(&self) -> (r: bool)
        ensures
            r == (self@ != 0),
            r == (shared_count(self@) != 0 || has_upgradable(self@) || has_exclusive(self@)),
    {
        proof {
            lemma_nonzero(self.lock);
        }
        self.lock != 0
    }

    /// Whether a writer holds the lock.
    pub fn is_locked_exclusive(&self) -> (r: bool)
        ensures
            r == has_exclusive(self@),
    {
        self.lock & EXCLUSIVE == EXCLUSIVE
    }

    /// Whether any plain shared reader holds the lock.
    pub fn is_locked_shared(&self) -> (r: bool)
        ensures
            r == (shared_count(self@) != 0),
    {
        proof {
            lemma_shared_mask(self.lock);
        }
        self.lock & !(EXCLUSIVE | UPGRADABLE) != 0
    }

    /// Whether an upgradable reader holds the lock.
    pub fn is_locked_upgradable(&self) -> (r: bool)
        ensures
            r == has_upgradable(self@),
    {
        self.lock & UPGRADABLE == UPGRADABLE
    }

    /// Shared acquisition for a reader that may already hold shared slots:
    /// the counter supports arbitrarily many slots per holder, so this is
    /// the plain shared acquisition.
    pub fn lock_shared_recursive(&mut self)
        requires
            rw_wf(old(self)@),
            !has_exclusive(old(self)@),
            old(self)@ <= overflow_threshold(),
        ensures
            final(self)@ == old(self)@ + 4,
            shared_count(final(self)@) == shared_count(old(self)@) + 1,
            has_upgradable(final(self)@) == has_upgradable(old(self)@),
            !has_exclusive(final(self)@),
            rw_wf(final(self)@),
    {
        self.lock_shared()
    }

    /// One recursive shared attempt; see [`lock_shared_recursive`].
    ///
    /// [`lock_shared_recursive`]: Self::lock_shared_recursive
    pub fn try_lock_shared_recursive(&mut self) -> (acquired: bool)
        requires
            rw_wf(old(self)@),
            old(self)@ <= overflow_threshold(),
        ensures
            acquired == !has_exclusive(old(self)@),
            acquired ==> final(self)@ == old(self)@ + 4 && shared_count(final(self)@)
                == shared_count(old(self)@) + 1 && has_upgradable(final(self)@) == has_upgradable(
                old(self)@,
            ) && !has_exclusive(final(self)@),
            !acquired ==> *final(self) == *old(self),
            rw_wf(final(self)@),
    {
        self.try_lock_shared()
    }

    /// Downgrade the writer lock to one shared slot: publish the reader slot
    /// first, then clear the exclusive bit. Only the writer may call this.
    pub fn downgrade(&mut self)
        requires
            rw_wf(old(self)@),
            has_exclusive(old(self)@),
        ensures
            final(self)@ == SHARED,
            shared_count(final(self)@) == 1,
            !has_exclusive(final(self)@),
            !has_upgradable(final(self)@),
            final(self)@ == rw_step(old(self)@, RwOp::Downgrade),
            rw_wf(final(self)@),
    {
        proof {
            lemma_only_exclusive(self.lock);
            lemma_rw_constants();
        }
        self.acquire_shared();
        self.unlock_exclusive();
    }

    /// Acquire the upgradable-reader slot, spinning while another upgradable
    /// reader or a writer holds the lock.
    pub fn lock_upgradable(&mut self)
        requires
            rw_wf(old(self)@),
            !has_upgradable(old(self)@),
            !has_exclusive(old(self)@),
        ensures
            final(self)@ == old(self)@ + 2,
            has_upgradable(final(self)@),
            !has_exclusive(final(self)@),
            shared_count(final(self)@) == shared_count(old(self)@),
            final(self)@ == rw_step(old(self)@, RwOp::LockUpgradable),
            rw_wf(final(self)@),
    {
        let mut backoff = Backoff::new();
        loop
            invariant_except_break
                *self == *old(self),
                rw_wf(self@),
                !has_upgradable(self@),
                !has_exclusive(self@),
            invariant
                backoff.wf(),
            ensures
                self@ == old(self)@ + 2,
                has_upgradable(self@),
                !has_exclusive(self@),
                shared_count(self@) == shared_count(old(self)@),
                rw_wf(self@),
            decreases 0int,
        {
            if self.try_lock_upgradable() {
                break;
            }
            backoff.snooze();
        }
    }

    /// Attempt the upgradable slot once: set the upgradable bit, and check
    /// what was there. If another upgradable reader already held the bit,
    /// the set changed nothing and nothing is rolled back; if a writer held
    /// the lock, the freshly set bit is cleared again.
    pub fn try_lock_upgradable(&mut self) -> (acquired: bool)
        requires
            rw_wf(old(self)@),
        ensures
            acquired == (!has_upgradable(old(self)@) && !has_exclusive(old(self)@)),
            acquired ==> final(self)@ == old(self)@ + 2 && has_upgradable(final(self)@)
                && !has_exclusive(final(self)@) && shared_count(final(self)@) == shared_count(
                old(self)@,
            ),
            !acquired ==> *final(self) == *old(self),
            final(self)@ == rw_step(old(self)@, RwOp::TryLockUpgradable),
            rw_wf(final(self)@),
    {
        let value = self.lock;
        proof {
            if has_upgradable(value) {
                lemma_or_upgradable_set(value);
            } else {
                lemma_or_upgradable(value);
            }
        }
        self.lock = self.lock | UPGRADABLE;

        let acquired = value & (UPGRADABLE | EXCLUSIVE) == 0;

        if !acquired && value & UPGRADABLE == 0 {
            self.unlock_upgradable();
        }

        acquired
    }

    /// Release the upgradable slot by clearing its bit. Only the upgradable
    /// holder may call this.
    pub fn unlock_upgradable(&mut self)
        requires
            has_upgradable(old(self)@),
        ensures
            final(self)@ == old(self)@ - 2,
            !has_upgradable(final(self)@),
            has_exclusive(final(self)@) == has_exclusive(old(self)@),
            shared_count(final(self)@) == shared_count(old(self)@),
            final(self)@ == rw_step(old(self)@, RwOp::UnlockUpgradable),
            rw_wf(old(self)@) ==> rw_wf(final(self)@),
    {
        proof {
            lemma_clear_upgradable(self.lock);
        }
        self.lock = self.lock & !UPGRADABLE;
    }

    /// Upgrade the upgradable slot to the writer lock, spinning until all
    /// plain readers have drained. Only the upgradable holder may call this,
    /// and on a single execution context the readers must already have
    /// drained, which is what the precondition on the count states.
    pub fn upgrade(&mut self)
        requires
            rw_wf(old(self)@),
            has_upgradable(old(self)@),
            !has_exclusive(old(self)@),
            shared_count(old(self)@) == 0,
        ensures
            final(self)@ == EXCLUSIVE,
            has_exclusive(final(self)@),
            final(self)@ == rw_step(old(self)@, RwOp::Upgrade),
            rw_wf(final(self)@),
    {
        proof {
            lemma_only_upgradable(self@);
        }
        let mut backoff = Backoff::new();
        loop
            invariant_except_break
                *self == *old(self),
                rw_wf(self@),
                self@ == UPGRADABLE,
                has_upgradable(self@),
            invariant
                backoff.wf(),
            ensures
                self@ == EXCLUSIVE,
                has_exclusive(self@),
                rw_wf(self@),
            decreases 0int,
        {
            if self.try_upgrade() {
                break;
            }
            backoff.snooze();
        }
    }

    /// Attempt the upgrade once: a single swap of the word from exactly
    /// [`UPGRADABLE`] to [`EXCLUSIVE`], which succeeds only when no plain
    /// reader is left. Only the upgradable holder may call this.
    pub fn try_upgrade(&mut self) -> (acquired: bool)
        requires
            has_upgradable(old(self)@),
        ensures
            acquired == (old(self)@ == UPGRADABLE),
            acquired ==> final(self)@ == EXCLUSIVE && has_exclusive(final(self)@) && rw_wf(
                final(self)@,
            ),
            !acquired ==> *final(self) == *old(self),
            final(self)@ == rw_step(old(self)@, RwOp::TryUpgrade),
            rw_wf(old(self)@) ==> rw_wf(final(self)@),
    {
        proof {
            lemma_rw_constants();
        }
        if self.lock == UPGRADABLE {
            self.lock = EXCLUSIVE;
            true
        } else {
            false
        }
    }

    /// Downgrade the upgradable slot to one plain shared slot: publish the
    /// reader slot first, then clear the upgradable bit. Only the upgradable
    /// holder may call this.
    pub fn downgrade_upgradable(&mut self)
        requires
            rw_wf(old(self)@),
            has_upgradable(old(self)@),
            old(self)@ <= overflow_threshold(),
        ensures
            final(self)@ == old(self)@ + 2,
            shared_count(final(self)@) == shared_count(old(self)@) + 1,
            !has_upgradable(final(self)@),
            !has_exclusive(final(self)@),
            final(self)@ == rw_step(old(self)@, RwOp::DowngradeUpgradable),
            rw_wf(final(self)@),
    {
        self.acquire_shared();
        self.unlock_upgradable();
    }

    /// Downgrade the writer lock to the upgradable slot: one flip of both
    /// flag bits. Only the writer may call this.
    pub fn downgrade_to_upgradable(&mut self)
        requires
            rw_wf(old(self)@),
            has_exclusive(old(self)@),
        ensures
            final(self)@ == UPGRADABLE,
            has_upgradable(final(self)@),
            !has_exclusive(final(self)@),
            shared_count(final(self)@) == 0,
            final(self)@ == rw_step(old(self)@, RwOp::DowngradeToUpgradable),
            rw_wf(final(self)@),
    {
        proof {
            lemma_only_exclusive(self.lock);
            lemma_rw_constants();
        }
        self.lock = self.lock ^ (UPGRADABLE | EXCLUSIVE);
    }
}

/// One operation on the lock, for reasoning about whole executions. The
/// recursive shared operations take the same transitions as the plain shared
/// ones and are represented by them.
pub enum RwOp {
    LockShared,
    TryLockShared,
    TryLockSharedChecked,
    UnlockShared,
    LockExclusive,
    TryLockExclusive,
    UnlockExclusive,
    LockUpgradable,
    TryLockUpgradable,
    UnlockUpgradable,
    Upgrade,
    TryUpgrade,
    Downgrade,
    DowngradeUpgradable,
    DowngradeToUpgradable,
}

/// One coexistence class of holders.
pub enum RwClass {
    Shared,
    Upgradable,
    Exclusive,
}

/// The number of holders of `class` encoded in word `w`.
pub open spec fn rw_holders(w: u64, class: RwClass) -> int {
    match class {
        RwClass::Shared => shared_count(w) as int,
        RwClass::Upgradable => if has_upgradable(w) {
            1int
        } else {
            0
        },
        RwClass::Exclusive => if has_exclusive(w) {
            1int
        } else {
            0
        },
    }
}

/// Whether `op` may run in state `w`: the operations' preconditions.
pub open spec fn rw_enabled(w: u64, op: RwOp) -> bool {
    match op {
        RwOp::LockShared => !has_exclusive(w) && w <= overflow_threshold(),
        RwOp::TryLockShared => w <= overflow_threshold(),
        RwOp::TryLockSharedChecked => true,
        RwOp::UnlockShared => shared_count(w) > 0,
        RwOp::LockExclusive => w == 0,
        RwOp::TryLockExclusive => true,
        RwOp::UnlockExclusive => has_exclusive(w),
        RwOp::LockUpgradable => !has_upgradable(w) && !has_exclusive(w),
        RwOp::TryLockUpgradable => true,
        RwOp::UnlockUpgradable => has_upgradable(w),
        RwOp::Upgrade => has_upgradable(w) && !has_exclusive(w) && shared_count(w) == 0,
        RwOp::TryUpgrade => has_upgradable(w),
        RwOp::Downgrade => has_exclusive(w),
        RwOp::DowngradeUpgradable => has_upgradable(w) && w <= overflow_threshold(),
        RwOp::DowngradeToUpgradable => has_exclusive(w),
    }
}

/// The word after `op` runs in state `w`; exactly the transitions the
/// executable operations' contracts state.
pub open spec fn rw_step(w: u64, op: RwOp) -> u64 {
    match op {
        RwOp::LockShared => (w + 4) as u64,
        RwOp::TryLockShared => if has_exclusive(w) {
            w
        } else {
            (w + 4) as u64
        },
        RwOp::TryLockSharedChecked => if w > overflow_threshold() || has_exclusive(w) {
            w
        } else {
            (w + 4) as u64
        },
        RwOp::UnlockShared => (w - 4) as u64,
        RwOp::LockExclusive => EXCLUSIVE,
        RwOp::TryLockExclusive => if w == 0 {
            EXCLUSIVE
        } else {
            w
        },
        RwOp::UnlockExclusive => (w - 1) as u64,
        RwOp::LockUpgradable => (w + 2) as u64,
        RwOp::TryLockUpgradable => if !has_upgradable(w) && !has_exclusive(w) {
            (w + 2) as u64
        } else {
            w
        },
        RwOp::UnlockUpgradable => (w - 2) as u64,
        RwOp::Upgrade => EXCLUSIVE,
        RwOp::TryUpgrade => if w == UPGRADABLE {
            EXCLUSIVE
        } else {
            w
        },
        RwOp::Downgrade => SHARED,
        RwOp::DowngradeUpgradable => (w + 2) as u64,
        RwOp::DowngradeToUpgradable => UPGRADABLE,
    }
}

/// Whether `op` grants a holder of `class` when run in state `w`.
pub open spec fn rw_grants(w: u64, op: RwOp, class: RwClass) -> bool {
    match class {
        RwClass::Shared => match op {
            RwOp::LockShared => true,
            RwOp::TryLockShared => !has_exclusive(w),
            RwOp::TryLockSharedChecked => w <= overflow_threshold() && !has_exclusive(w),
            RwOp::Downgrade => true,
            RwOp::DowngradeUpgradable => true,
            _ => false,
        },
        RwClass::Upgradable => match op {
            RwOp::LockUpgradable => true,
            RwOp::TryLockUpgradable => !has_upgradable(w) && !has_exclusive(w),
            RwOp::DowngradeToUpgradable => true,
            _ => false,
        },
        RwClass::Exclusive => match op {
            RwOp::LockExclusive => true,
            RwOp::TryLockExclusive => w == 0,
            RwOp::Upgrade => true,
            RwOp::TryUpgrade => w == UPGRADABLE,
            _ => false,
        },
    }
}

/// Whether `op` releases a holder of `class` when run in state `w`.
pub open spec fn rw_releases(w: u64, op: RwOp, class: RwClass) -> bool {
    match class {
        RwClass::Shared => op is UnlockShared,
        RwClass::Upgradable => match op {
            RwOp::UnlockUpgradable => true,
            RwOp::Upgrade => true,
            RwOp::TryUpgrade => w == UPGRADABLE,
            RwOp::DowngradeUpgradable => true,
            _ => false,
        },
        RwClass::Exclusive => match op {
            RwOp::UnlockExclusive => true,
            RwOp::Downgrade => true,
            RwOp::DowngradeToUpgradable => true,
            _ => false,
        },
    }
}

/// Whether a whole sequence of operations is a valid execution from `w`.
pub open spec fn rw_valid(w: u64, ops: Seq<RwOp>) -> bool
    decreases ops.len(),
{
    ops.len() == 0 || {
        rw_enabled(w, ops[0]) && rw_valid(rw_step(w, ops[0]), ops.subrange(1, ops.len() as int))
    }
}

/// The word after running `ops` from `w`.
pub open spec fn rw_run(w: u64, ops: Seq<RwOp>) -> u64
    decreases ops.len(),
{
    if ops.len() == 0 {
        w
    } else {
        rw_run(rw_step(w, ops[0]), ops.subrange(1, ops.len() as int))
    }
}

/// Grants minus releases of `class` over the course of `ops` run from `w`.
pub open spec fn rw_outstanding(w: u64, ops: Seq<RwOp>, class: RwClass) -> int
    decreases ops.len(),
{
    if ops.len() == 0 {
        0
    } else {
        (if rw_grants(w, ops[0], class) { 1int } else { 0 })
            - (if rw_releases(w, ops[0], class) { 1int } else { 0 })
            + rw_outstanding(rw_step(w, ops[0]), ops.subrange(1, ops.len() as int), class)
    }
}

proof fn lemma_rw_step_wf(w: u64, op: RwOp)
    requires
        rw_wf(w),
        rw_enabled(w, op),
    ensures
        rw_wf(rw_step(w, op)),
        rw_holders(rw_step(w, op), RwClass::Shared) == rw_holders(w, RwClass::Shared)
            + (if rw_grants(w, op, RwClass::Shared) { 1int } else { 0 })
            - (if rw_releases(w, op, RwClass::Shared) { 1int } else { 0 }),
        rw_holders(rw_step(w, op), RwClass::Upgradable) == rw_holders(w, RwClass::Upgradable)
            + (if rw_grants(w, op, RwClass::Upgradable) { 1int } else { 0 })
            - (if rw_releases(w, op, RwClass::Upgradable) { 1int } else { 0 }),
        rw_holders(rw_step(w, op), RwClass::Exclusive) == rw_holders(w, RwClass::Exclusive)
            + (if rw_grants(w, op, RwClass::Exclusive) { 1int } else { 0 })
            - (if rw_releases(w, op, RwClass::Exclusive) { 1int } else { 0 }),
{
    lemma_rw_constants();
    match op {
        RwOp::LockShared => {
            lemma_shared_add(w);
        },
        RwOp::TryLockShared => {
            if !has_exclusive(w) {
                lemma_shared_add(w);
            }
        },
        RwOp::TryLockSharedChecked => {
            if w <= overflow_threshold() && !has_exclusive(w) {
                lemma_shared_add(w);
            }
        },
        RwOp::UnlockShared => {
            lemma_shared_sub(w);
        },
        RwOp::LockExclusive => {
        },
        RwOp::TryLockExclusive => {
        },
        RwOp::UnlockExclusive => {
            lemma_clear_exclusive(w);
        },
        RwOp::LockUpgradable => {
            lemma_or_upgradable(w);
        },
        RwOp::TryLockUpgradable => {
            if !has_upgradable(w) && !has_exclusive(w) {
                lemma_or_upgradable(w);
            }
        },
        RwOp::UnlockUpgradable => {
            lemma_clear_upgradable(w);
        },
        RwOp::Upgrade => {
            lemma_only_upgradable(w);
        },
        RwOp::TryUpgrade => {
            if w == UPGRADABLE {
            }
        },
        RwOp::Downgrade => {
            lemma_only_exclusive(w);
        },
        RwOp::DowngradeUpgradable => {
            lemma_shared_add(w);
            lemma_clear_upgradable((w + 4) as u64);
        },
        RwOp::DowngradeToUpgradable => {
            lemma_only_exclusive(w);
        },
    }
}

proof fn lemma_rw_outstanding_is_holders(w: u64, ops: Seq<RwOp>, class: RwClass)
    requires
        rw_valid(w, ops),
        rw_wf(w),
    ensures
        rw_wf(rw_run(w, ops)),
        rw_outstanding(w, ops, class) == rw_holders(rw_run(w, ops), class) - rw_holders(w, class),
    decreases ops.len(),
{
    if ops.len() > 0 {
        lemma_rw_step_wf(w, ops[0]);
        lemma_rw_outstanding_is_holders(rw_step(w, ops[0]), ops.subrange(1, ops.len() as int), class);
    }
}

proof fn lemma_rw_valid_prefix(w: u64, ops: Seq<RwOp>, i: int)
    requires
        rw_valid(w, ops),
        0 <= i <= ops.len(),
    ensures
        rw_valid(w, ops.take(i)),
    decreases i,
{
    if i > 0 {
        lemma_rw_valid_prefix(rw_step(w, ops[0]), ops.subrange(1, ops.len() as int), i - 1);
        assert(ops.take(i).subrange(1, i) =~= ops.subrange(1, ops.len() as int).take(i - 1));
    }
}

/// The coexistence rules of the lock word hold at every instant of every
/// valid execution from a fresh lock: at most one exclusive holder, at most
/// one upgradable holder, never an exclusive holder beside a shared one,
/// and never an exclusive holder beside the upgradable one.
pub proof fn lemma_rw_exclusion(ops: Seq<RwOp>, i: int)
    requires
        rw_valid(0, ops),
        0 <= i <= ops.len(),
    ensures
        ({
            let w = rw_run(0, ops.take(i));
            &&& rw_wf(w)
            &&& rw_holders(w, RwClass::Exclusive) <= 1
            &&& rw_holders(w, RwClass::Upgradable) <= 1
            &&& rw_holders(w, RwClass::Exclusive) * rw_holders(w, RwClass::Shared) == 0
            &&& !(has_exclusive(w) && has_upgradable(w))
        }),
{
    lemma_rw_constants();
    lemma_rw_valid_prefix(0, ops, i);
    lemma_rw_outstanding_is_holders(0, ops.take(i), RwClass::Exclusive);
    let w = rw_run(0, ops.take(i));
    if has_exclusive(w) {
        assert(rw_holders(w, RwClass::Shared) == 0);
    } else {
        assert(rw_holders(w, RwClass::Exclusive) == 0);
    }
}

/// Holders are exactly grants minus releases: after every prefix of a valid
/// execution from a fresh lock, the number of holders of each class that the
/// word encodes equals the grants of that class handed out so far minus the
/// releases, and that balance never goes negative nor — for the writer and
/// the upgradable classes — above one.
pub proof fn lemma_rw_holders(ops: Seq<RwOp>, i: int, class: RwClass)
    requires
        rw_valid(0, ops),
        0 <= i <= ops.len(),
    ensures
        rw_outstanding(0, ops.take(i), class) == rw_holders(rw_run(0, ops.take(i)), class),
        rw_outstanding(0, ops.take(i), class) >= 0,
        !(class is Shared) ==> rw_outstanding(0, ops.take(i), class) <= 1,
{
    lemma_rw_constants();
    lemma_rw_valid_prefix(0, ops, i);
    lemma_rw_outstanding_is_holders(0, ops.take(i), class);
}

} // verus!
