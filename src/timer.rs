//! The world clock: it fires once per fixed interval of elapsed time.

use vstd::prelude::*;
use vstd::arithmetic::div_mod::{lemma_mod_add_multiples_vanish, lemma_small_mod};

verus! {

/// A repeating timer over milliseconds of elapsed time.
#[derive(Clone, Copy, Debug, PartialEq, Eq, Structural)]
pub struct GameTimer {
    pub period_ms: u64,
    /// Time accumulated since the timer last fired.
    pub elapsed_ms: u64,
}

impl GameTimer {
    pub open spec fn wf(&self) -> bool {
        0 < self.period_ms && self.elapsed_ms < self.period_ms
    }

    /// A timer that fires every `period_ms` milliseconds.
    pub fn new(period_ms: u64) -> (r: GameTimer)
        requires
            period_ms > 0,
        ensures
            r.wf(),
            r == (GameTimer { period_ms, elapsed_ms: 0 }),
    {
        GameTimer { period_ms, elapsed_ms: 0 }
    }

    /// Lets `delta_ms` milliseconds pass. The result says whether the
    /// timer fired: whether the time accumulated reached the period. It
    /// fires at most once per call, and the time beyond whole periods is
    /// carried forward.
    pub fn tick(&mut self, delta_ms: u64) -> (ready: bool)
        requires
            old(self).wf(),
        ensures
            final(self).wf(),
            final(self).period_ms == old(self).period_ms,
            ready == (old(self).elapsed_ms + delta_ms >= old(self).period_ms),
            final(self).elapsed_ms == (old(self).elapsed_ms + delta_ms) % (old(self).period_ms as int),
    {
        let room = self.period_ms - self.elapsed_ms;
        if delta_ms >= room {
            let rest = (delta_ms - room) % self.period_ms;
            proof {
                lemma_mod_add_multiples_vanish((delta_ms - room) as int, self.period_ms as int);
            }
            self.elapsed_ms = rest;
            true
        } else {
            proof {
                lemma_small_mod((self.elapsed_ms + delta_ms) as nat, self.period_ms as nat);
            }
            self.elapsed_ms = self.elapsed_ms + delta_ms;
            false
        }
    }
}

} // verus!
