use vstd::prelude::*;
use vstd::arithmetic::div_mod::lemma_div_is_ordered;

verus! {

/// Converts wall-clock time (seconds) into a step index: elapsed time since
/// genesis divided by the step duration, clamped to zero before genesis.
pub struct StepClock {
    pub genesis: u64,
    pub step_duration: u64,
}

impl StepClock {
    /// A clock is well formed when its step duration is positive.
    pub open spec fn wf(self) -> bool {
        self.step_duration > 0
    }

    /// The step index that a given wall-clock reading falls in.
    pub open spec fn spec_step(self, now: u64) -> u64 {
        if now <= self.genesis {
            0
        } else {
            (((now - self.genesis) as int) / (self.step_duration as int)) as u64
        }
    }

    /// The wall-clock second at which a given step begins, saturating at the
    /// largest representable time.
    pub open spec fn spec_step_start(self, step: u64) -> u64 {
        if self.genesis + step * self.step_duration > u64::MAX {
            u64::MAX
        } else {
            (self.genesis + step * self.step_duration) as u64
        }
    }

    pub fn new(genesis: u64, step_duration: u64) -> (r: StepClock)
        requires
            step_duration > 0,
        ensures
            r == (StepClock { genesis, step_duration }),
    {
        StepClock { genesis, step_duration }
    }

    /// The step that `now` falls in; a pure, total function of its inputs.
    pub fn current_step(&self, now: u64) -> (r: u64)
        requires
            self.wf(),
        ensures
            r == self.spec_step(now),
    {
        if now <= self.genesis {
            0
        } else {
            (now - self.genesis) / self.step_duration
        }
    }

    /// Seconds until the given step begins, or zero if it has already begun.
    /// The ticker sleeps for exactly this long rather than polling.
    pub fn duration_remaining(&self, step: u64, now: u64) -> (r: u64)
        requires
            self.wf(),
        ensures
            r == if self.spec_step_start(step) > now {
                (self.spec_step_start(step) - now) as u64
            } else {
                0u64
            },
    {
        let start: u64 = match step.checked_mul(self.step_duration) {
            Some(offset) => match self.genesis.checked_add(offset) {
                Some(s) => s,
                None => u64::MAX,
            },
            None => u64::MAX,
        };
        if start > now {
            start - now
        } else {
            0
        }
    }

    /// Steps never move backward in time: a later (or equal) wall-clock
    /// reading is mapped to a later or equal step.
    pub proof fn lemma_step_monotonic(self, now1: u64, now2: u64)
        requires
            self.wf(),
            now1 <= now2,
        ensures
            self.spec_step(now1) <= self.spec_step(now2),
    {
        if now1 > self.genesis {
            lemma_div_is_ordered(
                (now1 - self.genesis) as int,
                (now2 - self.genesis) as int,
                self.step_duration as int,
            );
        }
    }
}

} // verus!
