use hermit_sync::interrupts::{get, Cpu};
use hermit_sync::{RawInterruptSpinMutex, RawInterruptTicketMutex, RawSpinMutex};
use hermit_sync::{RawInterruptMutex, RawMutex};

#[test]
fn lock_masks_interrupts_and_unlock_restores() {
    let mut cpu = Cpu::new(true);
    let mut m = RawInterruptSpinMutex::init();

    m.lock(&mut cpu);
    // Interrupts are disabled for the whole critical section.
    assert!(!get(&cpu));
    assert!(m.is_locked());

    m.unlock(&mut cpu);
    // The pre-lock state is restored only after the inner release.
    assert!(get(&cpu));
    assert!(!m.is_locked());
}

#[test]
fn lock_from_masked_context_stays_masked() {
    let mut cpu = Cpu::new(false);
    let mut m = RawInterruptSpinMutex::init();

    m.lock(&mut cpu);
    assert!(!get(&cpu));
    m.unlock(&mut cpu);
    assert!(!get(&cpu));
}

#[test]
fn nested_locks_preserve_outermost_state() {
    let mut cpu = Cpu::new(true);
    let mut outer = RawInterruptSpinMutex::init();
    let mut inner = RawInterruptSpinMutex::init();

    outer.lock(&mut cpu);
    assert!(!get(&cpu));

    inner.lock(&mut cpu);
    assert!(!get(&cpu));

    inner.unlock(&mut cpu);
    // The inner pair saw "already disabled" and re-enabled nothing.
    assert!(!get(&cpu));

    outer.unlock(&mut cpu);
    assert!(get(&cpu));
}

#[test]
fn try_lock_failure_restores_interrupts() {
    let mut cpu = Cpu::new(true);
    let mut m = RawInterruptSpinMutex::init();

    assert!(m.try_lock(&mut cpu));
    assert!(!get(&cpu));

    // A second attempt fails and leaves the flag as it found it.
    assert!(!m.try_lock(&mut cpu));
    assert!(!get(&cpu));

    m.unlock(&mut cpu);
    assert!(get(&cpu));
}

#[test]
fn composes_with_ticket_mutex() {
    let mut cpu = Cpu::new(true);
    let mut m = RawInterruptTicketMutex::init();

    assert!(!m.is_locked());
    m.lock(&mut cpu);
    assert!(m.is_locked());
    assert!(!get(&cpu));
    m.unlock(&mut cpu);
    assert!(!m.is_locked());
    assert!(get(&cpu));
}

#[test]
fn wraps_an_existing_mutex() {
    let inner: RawSpinMutex = RawMutex::init();
    let mut cpu = Cpu::new(true);
    let mut m = RawInterruptMutex::new(inner);
    assert!(m.try_lock(&mut cpu));
    assert!(!get(&cpu));
    m.unlock(&mut cpu);
    assert!(get(&cpu));
}
