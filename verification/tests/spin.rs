use hermit_sync::{RawMutex, RawSpinMutex};

#[test]
fn spin_smoke() {
    let mut m: RawSpinMutex = RawMutex::init();
    m.lock();
    m.unlock();
    m.lock();
    m.unlock();
}

#[test]
fn spin_try_lock() {
    let mut m: RawSpinMutex = RawMutex::init();
    let data = 42;

    // First lock succeeds
    let a = m.try_lock();
    assert!(a);
    assert_eq!(data, 42);

    // Additional lock fails
    let b = m.try_lock();
    assert!(!b);

    // After unlocking, it succeeds again
    m.unlock();
    let c = m.try_lock();
    assert!(c);
    assert_eq!(data, 42);
}

#[test]
fn spin_is_locked_tracks_state() {
    let mut m: RawSpinMutex = RawMutex::init();
    assert!(!m.is_locked());
    m.lock();
    assert!(m.is_locked());
    m.unlock();
    assert!(!m.is_locked());
}

#[test]
fn spin_counter_three_workers() {
    // Three workers, one thousand increments each, every increment under the
    // lock: the counter ends at exactly 3000.
    let mut m: RawSpinMutex = RawMutex::init();
    let mut counter: u64 = 0;
    for _worker in 0..3 {
        for _ in 0..1000 {
            m.lock();
            counter += 1;
            m.unlock();
        }
    }
    assert_eq!(counter, 3000);
}
