//! Exponential backoff for busy-waiting loops.

use vstd::prelude::*;

verus! {

/// Number of steps after which the pacer reports saturation.
pub const YIELD_LIMIT: u8 = 10;

/// Relies on `core::hint::spin_loop`: a CPU "I am spinning" pause hint with
/// no observable effect on program state.
pub assume_specification[ core::hint::spin_loop ]();

/// An exponential backoff pacer for one waiting episode.
///
/// Each call to [`Backoff::snooze`] busy-spins for `2^step` CPU pause hints
/// and then advances the step counter, until the counter saturates one past
/// [`YIELD_LIMIT`]. Doubling the pause count between polls of a contended
/// lock word reduces cache-coherence traffic; the cap keeps the delay
/// bounded.
pub struct Backoff {
    step: u8,
}

impl Backoff {
    /// The current step count.
    pub closed spec fn step_count(&self) -> u8 {
        self.step
    }

    /// The step counter never leaves `0 ..= YIELD_LIMIT + 1`.
    pub open spec fn wf(&self) -> bool {
        self.step_count() <= YIELD_LIMIT + 1
    }

    /// Whether the pacer reports saturation.
    pub open spec fn completed(&self) -> bool {
        self.step_count() > YIELD_LIMIT
    }

    /// A fresh pacer at step 0.
    pub fn new() -> (b: Backoff)
        ensures
            b.wf(),
            b.step_count() == 0,
            !b.completed(),
    {
        Backoff { step: 0 }
    }

    /// Busy-spin for `2^step` pause hints, then advance the step counter
    /// unless the pacer is already saturated.
    ///
    /// Saturation is monotone: once `is_completed` returns true it stays
    /// true, since the step counter never decreases.
    pub fn snooze(&mut self)
        requires
            old(self).wf(),
        ensures
            final(self).wf(),
            final(self).step_count() == snooze_step(old(self).step_count()),
            old(self).step_count() <= final(self).step_count(),
            old(self).completed() ==> final(self).completed(),
    {
        let rounds: u16 = 1u16 << self.step;
        let mut i: u16 = 0;
        while i < rounds
            decreases rounds - i,
        {
            core::hint::spin_loop();
            i = i + 1;
        }

        if !self.is_completed() {
            self.step = self.step + 1;
        }
    }

    /// Whether the pacer has saturated and callers should change strategy.
    pub fn is_completed(&self) -> (r: bool)
        ensures
            r == self.completed(),
    {
        self.step > YIELD_LIMIT
    }
}

impl Default for Backoff {
    fn default() -> (b: Backoff)
        ensures
            b.wf(),
            b.step_count() == 0,
            !b.completed(),
    {
        Backoff::new()
    }
}

/// The step the counter takes on each snooze: advance unless saturated.
pub open spec fn snooze_step(step: u8) -> u8 {
    if step > YIELD_LIMIT {
        step
    } else {
        (step + 1) as u8
    }
}

/// The counter after `n` snoozes from `step`.
pub open spec fn snooze_run(step: u8, n: nat) -> u8
    decreases n,
{
    if n == 0 {
        step
    } else {
        snooze_run(snooze_step(step), (n - 1) as nat)
    }
}

/// Saturation is monotone: once the counter has passed [`YIELD_LIMIT`], it
/// stays there — `is_completed` never goes back from true to false over any
/// further sequence of snoozes.
pub proof fn lemma_saturation_monotone(step: u8, n: nat, m: nat)
    requires
        n <= m,
    ensures
        snooze_run(step, n) > YIELD_LIMIT ==> snooze_run(step, m) > YIELD_LIMIT,
    decreases m,
{
    if n > 0 {
        lemma_saturation_monotone(snooze_step(step), (n - 1) as nat, (m - 1) as nat);
    } else if m > 0 && step > YIELD_LIMIT {
        lemma_saturation_monotone(step, 0, (m - 1) as nat);
    }
}

} // verus!
