//! The CPU's interrupt-enable flag, and running code with interrupts
//! disabled.
//!
//! The interrupt-enable bit is per-CPU hardware state. It is modeled here by
//! the explicit value [`Cpu`], so that every operation's effect on the flag
//! is part of its contract; a freestanding build binds [`get`] and [`set`]
//! to the architecture's flag-register instructions, which read and write
//! exactly the bits these functions read and write on the model.

use vstd::prelude::*;

verus! {

/// A saved interrupt-flag value: `true` means "interrupts were enabled".
pub type Flags = bool;

/// The flag value that stands for "interrupts disabled".
pub const DISABLE: Flags = false;

/// A model of the current CPU's interrupt-enable bit.
pub struct Cpu {
    enabled: bool,
}

impl Cpu {
    /// Whether this CPU currently takes hardware interrupts.
    pub closed spec fn interrupts_enabled(&self) -> bool {
        self.enabled
    }

    /// A CPU whose interrupt-enable bit is `enabled`.
    pub fn new(enabled: bool) -> (cpu: Cpu)
        ensures
            cpu.interrupts_enabled() == enabled,
    {
        Cpu { enabled }
    }
}

/// The flag value that [`read_disable`] hands back: the prior enable bit.
pub closed spec fn spec_read_disable_flags(c: Cpu) -> Flags {
    c.enabled
}

/// The CPU state after [`read_disable`]: interrupts are masked.
pub closed spec fn spec_read_disable_cpu(c: Cpu) -> Cpu {
    Cpu { enabled: false }
}

/// The CPU state after [`restore`] with a saved flag value.
pub closed spec fn spec_restore(c: Cpu, flags: Flags) -> Cpu {
    if flags != DISABLE {
        Cpu { enabled: true }
    } else {
        c
    }
}

/// Read the current interrupt-enable flag.
pub fn get(cpu: &Cpu) -> (flags: Flags)
    ensures
        flags == cpu.interrupts_enabled(),
{
    cpu.enabled
}

/// Write the interrupt-enable flag.
pub fn set(cpu: &mut Cpu, value: Flags)
    ensures
        final(cpu).interrupts_enabled() == value,
{
    cpu.enabled = value;
}

/// Disable interrupts and return the prior flag value.
///
/// If interrupts are already disabled, the disable write is skipped and the
/// returned value is [`DISABLE`]; a later [`restore`] of that value is a
/// no-op, which is what makes nested disable regions compose.
pub fn read_disable(cpu: &mut Cpu) -> (flags: Flags)
    ensures
        flags == spec_read_disable_flags(*old(cpu)),
        *final(cpu) == spec_read_disable_cpu(*old(cpu)),
        flags == old(cpu).interrupts_enabled(),
        !final(cpu).interrupts_enabled(),
{
    let flags = get(cpu);

    if flags != DISABLE {
        set(cpu, DISABLE);
    }

    flags
}

/// Re-enable interrupts if `flags` says they were enabled; otherwise leave
/// the flag untouched.
pub fn restore(cpu: &mut Cpu, flags: Flags)
    ensures
        *final(cpu) == spec_restore(*old(cpu), flags),
        final(cpu).interrupts_enabled() == (old(cpu).interrupts_enabled() || flags != DISABLE),
{
    if flags != DISABLE {
        set(cpu, flags);
    }
}

/// Run a closure with interrupts disabled, then restore the prior state.
///
/// Interrupts are disabled before the closure runs (if they are not
/// already), and re-enabled afterwards exactly when they were enabled
/// before the call.
pub fn without_interrupts<R, F: FnOnce() -> R>(cpu: &mut Cpu, f: F) -> (r: R)
    requires
        call_requires(f, ()),
    ensures
        final(cpu).interrupts_enabled() == old(cpu).interrupts_enabled(),
        call_ensures(f, (), r),
{
    let flags = read_disable(cpu);

    let ret = f();

    restore(cpu, flags);

    ret
}

/// Disabling and then restoring leaves the interrupt-enable bit exactly as
/// it was: `restore(read_and_disable())` is a round trip on the flag.
pub proof fn lemma_flag_round_trip(c: Cpu)
    ensures
        spec_restore(spec_read_disable_cpu(c), spec_read_disable_flags(c)).interrupts_enabled()
            == c.interrupts_enabled(),
{
}

/// A nested disable/restore pair inside an outer one observes "already
/// disabled", takes no action on exit, and the outer pairing still restores
/// the original flag.
pub proof fn lemma_nested_round_trip(c: Cpu)
    ensures
        ({
            let inner_cpu = spec_read_disable_cpu(spec_read_disable_cpu(c));
            let inner_flags = spec_read_disable_flags(spec_read_disable_cpu(c));
            let after_inner = spec_restore(inner_cpu, inner_flags);
            !after_inner.interrupts_enabled()
                && spec_restore(after_inner, spec_read_disable_flags(c)).interrupts_enabled()
                    == c.interrupts_enabled()
        }),
{
}

} // verus!
