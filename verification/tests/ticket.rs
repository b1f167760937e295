use hermit_sync::{RawMutex, RawTicketMutex};

#[test]
fn ticket_smoke() {
    let mut m = RawTicketMutex::new();
    m.lock();
    m.unlock();
    m.lock();
    m.unlock();
}

#[test]
fn ticket_try_lock() {
    let mut m = RawTicketMutex::new();
    let data = 42;

    // First lock succeeds
    let a = m.try_lock();
    assert!(a);
    assert_eq!(data, 42);

    // Additional lock fails
    let b = m.try_lock();
    assert!(!b);

    // After unlocking, it succeeds again
    m.unlock();
    let c = m.try_lock();
    assert!(c);
    assert_eq!(data, 42);
}

#[test]
fn is_locked() {
    let mut m = RawTicketMutex::new();
    assert!(!m.is_locked());
    m.lock();
    assert!(m.is_locked());
    m.unlock();
    assert!(!m.is_locked());
}

#[test]
fn ticket_unlock_fair_releases() {
    let mut m = RawTicketMutex::new();
    m.lock();
    assert!(m.is_locked());
    m.unlock_fair();
    assert!(!m.is_locked());
}

#[test]
fn ticket_bump_keeps_holding() {
    let mut m = RawTicketMutex::new();
    m.lock();
    m.bump();
    assert!(m.is_locked());
    m.unlock();
    assert!(!m.is_locked());
}

#[test]
fn ticket_init_matches_new() {
    let mut a: RawTicketMutex = RawMutex::init();
    let mut b = RawTicketMutex::new();
    assert_eq!(a.is_locked(), b.is_locked());
    a.lock();
    b.lock();
    assert!(a.is_locked() && b.is_locked());
    a.unlock();
    b.unlock();
}

#[test]
fn ticket_rounds_are_fair() {
    // Eight workers taking turns for 1000 rounds in all: every worker gets
    // exactly 1000 / 8 = 125 grants, and each grant happens strictly after
    // the previous holder released.
    let mut m = RawTicketMutex::new();
    let mut grants = [0u32; 8];
    let mut log: Vec<usize> = Vec::new();
    for round in 0..1000 {
        let worker = round % 8;
        m.lock();
        grants[worker] += 1;
        log.push(worker);
        m.unlock();
    }
    for worker in 0..8 {
        assert_eq!(grants[worker], 125);
    }
    // The log records grants in exactly the order the tickets were drawn.
    for (i, worker) in log.iter().enumerate() {
        assert_eq!(*worker, i % 8);
    }
}
