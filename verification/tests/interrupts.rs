use hermit_sync::interrupts::{get, read_disable, restore, Cpu, DISABLE};
use hermit_sync::without_interrupts;

#[test]
fn read_disable_masks_and_reports_prior_state() {
    let mut cpu = Cpu::new(true);
    let flags = read_disable(&mut cpu);
    assert!(flags);
    assert!(!get(&cpu));
}

#[test]
fn read_disable_on_masked_cpu_returns_sentinel() {
    let mut cpu = Cpu::new(false);
    let flags = read_disable(&mut cpu);
    assert_eq!(flags, DISABLE);
    assert!(!get(&cpu));
}

#[test]
fn restore_round_trip_from_enabled() {
    let mut cpu = Cpu::new(true);
    let flags = read_disable(&mut cpu);
    restore(&mut cpu, flags);
    assert!(get(&cpu));
}

#[test]
fn restore_round_trip_from_disabled() {
    let mut cpu = Cpu::new(false);
    let flags = read_disable(&mut cpu);
    restore(&mut cpu, flags);
    assert!(!get(&cpu));
}

#[test]
fn nested_disable_regions_compose() {
    let mut cpu = Cpu::new(true);

    let outer = read_disable(&mut cpu);
    assert!(!get(&cpu));

    let inner = read_disable(&mut cpu);
    assert_eq!(inner, DISABLE);
    assert!(!get(&cpu));

    restore(&mut cpu, inner);
    assert!(!get(&cpu));

    restore(&mut cpu, outer);
    assert!(get(&cpu));
}

#[test]
fn without_interrupts_preserves_flag_and_returns_result() {
    let mut cpu = Cpu::new(true);
    let r = without_interrupts(&mut cpu, || 42);
    assert_eq!(r, 42);
    assert!(get(&cpu));

    let mut masked = Cpu::new(false);
    let r = without_interrupts(&mut masked, || 7);
    assert_eq!(r, 7);
    assert!(!get(&masked));
}

#[test]
fn set_writes_the_flag() {
    let mut cpu = Cpu::new(false);
    hermit_sync::interrupts::set(&mut cpu, true);
    assert!(get(&cpu));
    hermit_sync::interrupts::set(&mut cpu, false);
    assert!(!get(&cpu));
}
