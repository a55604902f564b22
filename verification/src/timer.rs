//! The timer by which a participant decides that a height is to be skipped.
use crate::time::{Duration, Instant};
use crate::types::{BlockHeight, BlockHeightDelta};
use vstd::prelude::*;

verus! {

/// The height that the timer runs for, since when it runs, and how long it may run.
#[derive(Clone, Copy, Debug)]
pub struct DoomslugTimer {
    pub started: Instant,
    pub height: BlockHeight,
    pub min_delay: Duration,
    pub delay_step: Duration,
    pub max_delay: Duration,
}

/// How many delay steps are added at a distance of `n` heights: one for each height after the
/// first, up to the largest number that 32 bits hold.
pub open spec fn delay_steps(n: nat) -> nat {
    if n == 0 {
        0
    } else if n > u32::MAX {
        (u32::MAX - 1) as nat
    } else {
        (n - 1) as nat
    }
}

impl DoomslugTimer {
    /// The delay at a distance of `n` heights, in nanoseconds, before it is capped.
    pub open spec fn uncapped_delay(self, n: nat) -> nat {
        self.min_delay.nanos as nat + self.delay_step.nanos as nat * delay_steps(n)
    }

    /// The delay at a distance of `n` heights, in nanoseconds.
    pub open spec fn delay(self, n: nat) -> nat {
        if self.max_delay.nanos < self.uncapped_delay(n) {
            self.max_delay.nanos as nat
        } else {
            self.uncapped_delay(n)
        }
    }

    /// The uncapped delay can be held in a [`Duration`].
    pub open spec fn delay_fits(self, n: nat) -> bool {
        self.uncapped_delay(n) <= u128::MAX
    }

    /// Computes the delay to sleep given the number of heights from the last block with doomslug
    /// finality. This is what is represented by `T` in the paper.
    pub fn get_delay(&self, n: BlockHeightDelta) -> (delay: Duration)
        requires
            self.delay_fits(n as nat),
        ensures
            delay.nanos == self.delay(n as nat),
    {
        let n32: u32 = if n > u32::MAX as u64 {
            u32::MAX
        } else {
            n as u32
        };
        let steps: u32 = n32.saturating_sub(1);
        assert(steps == delay_steps(n as nat));
        let added: u128 = self.delay_step.nanos * steps as u128;
        let delay = Duration { nanos: self.min_delay.nanos + added };
        if self.max_delay.nanos < delay.nanos {
            self.max_delay
        } else {
            delay
        }
    }
}

/// The delay never exceeds the largest one, and it does not shrink as the last block with doomslug
/// finality gets more distant. Up to a distance of one height it is the smallest one (unless that
/// exceeds the largest).
pub proof fn law_delay_grows_up_to_its_cap(timer: DoomslugTimer, n: nat, m: nat)
    requires
        n <= m,
    ensures
        timer.delay(n) <= timer.delay(m) <= timer.max_delay.nanos,
        timer.delay_fits(m) ==> timer.delay_fits(n),
        m <= 1 ==> timer.delay(m) == if timer.max_delay.nanos < timer.min_delay.nanos {
            timer.max_delay.nanos
        } else {
            timer.min_delay.nanos
        },
{
    assert(timer.delay_step.nanos as nat * delay_steps(n) <= timer.delay_step.nanos as nat
        * delay_steps(m)) by (nonlinear_arith)
        requires
            delay_steps(n) <= delay_steps(m),
    ;
    assert(timer.delay_step.nanos as nat * 0 == 0);
}

} // verus!
