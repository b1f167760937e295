use hermit_sync::Backoff;

#[test]
fn backoff_starts_incomplete() {
    let b = Backoff::new();
    assert!(!b.is_completed());
}

#[test]
fn backoff_saturates_after_eleven_steps() {
    let mut b = Backoff::new();
    for _ in 0..11 {
        assert!(!b.is_completed());
        b.snooze();
    }
    assert!(b.is_completed());
}

#[test]
fn backoff_saturation_is_monotone() {
    let mut b = Backoff::new();
    let mut seen_completed = false;
    for _ in 0..20 {
        if seen_completed {
            assert!(b.is_completed());
        }
        if b.is_completed() {
            seen_completed = true;
        }
        b.snooze();
    }
    assert!(seen_completed);
    assert!(b.is_completed());
}

#[test]
fn backoff_default_is_fresh() {
    let b = Backoff::default();
    assert!(!b.is_completed());
}
