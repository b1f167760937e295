use hermit_sync::RawRwSpinLock;

#[test]
fn test_unlock_shared() {
    let mut m = RawRwSpinLock::new();
    m.lock_shared();
    m.lock_shared();
    m.lock_shared();
    assert!(!m.try_lock_exclusive());
    m.unlock_shared();
    m.unlock_shared();
    assert!(!m.try_lock_exclusive());
    m.unlock_shared();
    assert!(m.try_lock_exclusive());
}

#[test]
fn test_unlock_exclusive() {
    let mut m = RawRwSpinLock::new();
    m.lock_exclusive();
    assert!(!m.try_lock_shared());
    m.unlock_exclusive();
    assert!(m.try_lock_shared());
}

#[test]
fn rwlock_smoke() {
    let mut l = RawRwSpinLock::new();
    l.lock_shared();
    l.unlock_shared();
    l.lock_exclusive();
    l.unlock_exclusive();
    l.lock_shared();
    l.lock_shared();
    l.unlock_shared();
    l.unlock_shared();
    l.lock_exclusive();
    l.unlock_exclusive();
}

#[test]
fn test_rwlock_try_write() {
    // A writer cannot acquire while a read guard is in scope.
    let mut lock = RawRwSpinLock::new();
    lock.lock_shared();

    assert!(!lock.try_lock_exclusive());

    lock.unlock_shared();
    assert!(lock.try_lock_exclusive());
}

#[test]
fn test_rw_try_read() {
    let mut m = RawRwSpinLock::new();
    m.lock_exclusive();
    assert!(!m.try_lock_shared());
}

#[test]
fn test_upgrade_downgrade() {
    let mut m = RawRwSpinLock::new();
    {
        m.lock_shared();
        assert!(m.try_lock_upgradable());
        assert!(m.try_lock_shared());
        assert!(!m.try_lock_exclusive());
        // Upgrading fails while plain readers are held.
        assert!(!m.try_upgrade());
        m.unlock_shared();
        m.unlock_shared();
        m.unlock_upgradable();
    }
    {
        m.lock_exclusive();
        assert!(!m.try_lock_upgradable());
        m.downgrade();
        assert!(m.try_lock_upgradable());
        assert!(m.try_lock_shared());
        assert!(!m.try_lock_exclusive());
        m.unlock_shared();
        m.unlock_upgradable();
        m.unlock_shared();
    }
    {
        m.lock_upgradable();
        assert!(!m.try_lock_upgradable());
        m.unlock_upgradable();
    }

    assert!(m.try_lock_upgradable());
    assert!(m.try_upgrade());
    m.unlock_exclusive();
}

#[test]
fn shared_read_blocks_try_write() {
    // Acquire a shared read; try_lock_exclusive fails; release; it succeeds.
    let mut m = RawRwSpinLock::new();
    m.lock_shared();
    assert!(!m.try_lock_exclusive());
    m.unlock_shared();
    assert!(m.try_lock_exclusive());
    m.unlock_exclusive();
}

#[test]
fn upgrade_path() {
    let mut m = RawRwSpinLock::new();

    // Take an upgradable read: plain reads still succeed, writes fail.
    m.lock_upgradable();
    assert!(m.try_lock_shared());
    assert!(!m.try_lock_exclusive());

    // Upgrading fails while a plain reader is also held.
    assert!(!m.try_upgrade());

    // Release all plain readers: the upgrade now succeeds.
    m.unlock_shared();
    assert!(m.try_upgrade());
    assert!(m.is_locked_exclusive());
    m.unlock_exclusive();
}

#[test]
fn downgrade_path() {
    // Take an exclusive lock on value 5, downgrade to shared: a concurrent
    // writer must fail, a concurrent reader must succeed, and the value
    // reads back as 5.
    let mut m = RawRwSpinLock::new();
    let value: i32;

    m.lock_exclusive();
    value = 5;
    m.downgrade();

    assert!(!m.try_lock_exclusive());
    assert!(m.try_lock_shared());
    assert_eq!(value, 5);

    m.unlock_shared();
    m.unlock_shared();
    assert!(m.try_lock_exclusive());
    m.unlock_exclusive();
}

#[test]
fn downgrade_upgradable_path() {
    let mut m = RawRwSpinLock::new();
    m.lock_upgradable();
    m.downgrade_upgradable();
    assert!(m.is_locked_shared());
    assert!(!m.is_locked_upgradable());
    // The upgradable slot is free again.
    assert!(m.try_lock_upgradable());
    m.unlock_upgradable();
    m.unlock_shared();
}

#[test]
fn downgrade_to_upgradable_path() {
    let mut m = RawRwSpinLock::new();
    m.lock_exclusive();
    m.downgrade_to_upgradable();
    assert!(m.is_locked_upgradable());
    assert!(!m.is_locked_exclusive());
    // Plain readers may join an upgradable holder.
    assert!(m.try_lock_shared());
    m.unlock_shared();
    m.unlock_upgradable();
}

#[test]
fn recursive_shared() {
    let mut m = RawRwSpinLock::new();
    m.lock_shared();
    m.lock_shared_recursive();
    assert!(m.try_lock_shared_recursive());
    assert!(m.is_locked_shared());
    m.unlock_shared();
    m.unlock_shared();
    m.unlock_shared();
    assert!(!m.is_locked());
}

#[test]
fn queries_track_classes() {
    let mut m = RawRwSpinLock::new();
    assert!(!m.is_locked());
    m.lock_shared();
    assert!(m.is_locked());
    assert!(m.is_locked_shared());
    assert!(!m.is_locked_exclusive());
    assert!(!m.is_locked_upgradable());
    m.unlock_shared();
    m.lock_upgradable();
    assert!(m.is_locked_upgradable());
    assert!(!m.is_locked_shared());
    m.unlock_upgradable();
    assert!(!m.is_locked());
}

#[test]
fn overflow_guard_detects_and_restores() {
    // Set the word to SHARED * K for K over the cap: one more shared attempt
    // is detected and the word is restored to its pre-call value.
    let over = (u64::MAX / 2) + 1;
    let mut m = RawRwSpinLock::from_raw(over);
    assert_eq!(m.try_lock_shared_checked(), None);
    assert_eq!(m.raw(), over);

    // Just under the cap, the optimistic acquisition still succeeds once.
    let near = u64::MAX / 2 - 3;
    let mut m = RawRwSpinLock::from_raw(near);
    assert_eq!(m.try_lock_shared_checked(), Some(true));
    assert_eq!(m.raw(), near + 4);
    // The word is now over the cap: the next attempt is refused.
    assert_eq!(m.try_lock_shared_checked(), None);
    assert_eq!(m.raw(), near + 4);
}
