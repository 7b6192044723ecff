//! A countdown timer whose durations are whole nanoseconds.

use vstd::prelude::*;

verus! {

/// A countdown timer: `elapsed` advances by each tick's delta, and
/// `just_finished` tells whether the last tick reached `threshold`.
#[derive(Clone, Copy, Debug, PartialEq, Eq, Structural)]
pub struct CountdownTimer {
    pub elapsed: u64,
    pub threshold: u64,
    pub repeating: bool,
    pub just_finished: bool,
}

/// The timer after one tick of `delta` nanoseconds. A one-shot timer that has
/// already reached its threshold halts there; a repeating one wraps its
/// elapsed time modulo the threshold each time it reaches it.
pub open spec fn tick_spec(t: CountdownTimer, delta: u64) -> CountdownTimer {
    if !t.repeating && t.elapsed >= t.threshold {
        CountdownTimer { just_finished: false, ..t }
    } else if t.elapsed + delta >= t.threshold {
        CountdownTimer {
            elapsed: if !t.repeating {
                t.threshold
            } else if t.threshold == 0 {
                0
            } else {
                ((t.elapsed + delta) % (t.threshold as int)) as u64
            },
            just_finished: true,
            ..t
        }
    } else {
        CountdownTimer { elapsed: (t.elapsed + delta) as u64, just_finished: false, ..t }
    }
}

impl CountdownTimer {
    /// A timer that has run for no time yet.
    pub open spec fn fresh(threshold: u64, repeating: bool) -> CountdownTimer {
        CountdownTimer { elapsed: 0, threshold, repeating, just_finished: false }
    }

    pub fn from_nanos(threshold: u64, repeating: bool) -> (r: CountdownTimer)
        ensures
            r == CountdownTimer::fresh(threshold, repeating),
    {
        CountdownTimer { elapsed: 0, threshold, repeating, just_finished: false }
    }

    /// Advances the timer by `delta` nanoseconds.
    pub fn tick(&mut self, delta: u64)
        ensures
            *final(self) == tick_spec(*old(self), delta),
    {
        if !self.repeating && self.elapsed >= self.threshold {
            self.just_finished = false;
            return;
        }
        let sum: u128 = self.elapsed as u128 + delta as u128;
        if sum >= self.threshold as u128 {
            if !self.repeating {
                self.elapsed = self.threshold;
            } else if self.threshold == 0 {
                self.elapsed = 0;
            } else {
                let wrapped: u128 = sum % (self.threshold as u128);
                self.elapsed = wrapped as u64;
            }
            self.just_finished = true;
        } else {
            self.elapsed = sum as u64;
            self.just_finished = false;
        }
    }

    /// Whether the last tick reached the threshold.
    pub fn just_finished(&self) -> (r: bool)
        ensures
            r == self.just_finished,
    {
        self.just_finished
    }
}

} // verus!
