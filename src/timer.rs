//! Frame-driven timers over durations counted in nanoseconds.
use vstd::prelude::*;

verus! {

/// A timer that fires each time a whole period has elapsed and then starts
/// over with what is left of the elapsed time.
#[derive(Debug, Clone, Copy, PartialEq, Eq, Structural)]
pub struct RepeatingTimer {
    pub period: u64,
    pub elapsed: u64,
}

impl RepeatingTimer {
    pub open spec fn wf(self) -> bool {
        self.period > 0 && self.elapsed < self.period
    }

    /// The timer after `delta` more nanoseconds, and whether it fired.
    pub open spec fn spec_tick(self, delta: u64) -> (RepeatingTimer, bool) {
        (
            RepeatingTimer {
                period: self.period,
                elapsed: ((self.elapsed + delta) % (self.period as int)) as u64,
            },
            self.elapsed + delta >= self.period,
        )
    }

    pub fn new(period: u64) -> (r: RepeatingTimer)
        requires
            period > 0,
        ensures
            r.wf(),
            r.period == period,
            r.elapsed == 0,
    {
        RepeatingTimer { period, elapsed: 0 }
    }

    /// Lets `delta` nanoseconds pass; returns whether at least one period ended.
    pub fn tick(&mut self, delta: u64) -> (fired: bool)
        requires
            old(self).wf(),
        ensures
            final(self).wf(),
            (*final(self), fired) == old(self).spec_tick(delta),
    {
        let p = self.period;
        let e = self.elapsed;
        let d: u64 = delta % p;
        let room: u64 = p - e;
        let fired = delta >= room;
        proof {
            let q = delta / p;
            vstd::arithmetic::div_mod::lemma_fundamental_div_mod(delta as int, p as int);
            assert((e + delta) as int == p * q + (e + d)) by (nonlinear_arith)
                requires
                    delta == p * q + d,
            ;
            if e + d >= p {
                assert((e + delta) as int == p * (q + 1) + (e + d - p)) by (nonlinear_arith)
                    requires
                        (e + delta) as int == p * q + (e + d),
                ;
                vstd::arithmetic::div_mod::lemma_mod_multiples_vanish(
                    q + 1,
                    (e + d - p) as int,
                    p as int,
                );
                vstd::arithmetic::div_mod::lemma_small_mod((e + d - p) as nat, p as nat);
            } else {
                vstd::arithmetic::div_mod::lemma_mod_multiples_vanish(
                    q as int,
                    (e + d) as int,
                    p as int,
                );
                vstd::arithmetic::div_mod::lemma_small_mod((e + d) as nat, p as nat);
            }
        }
        if d >= room {
            self.elapsed = d - room;
        } else {
            self.elapsed = e + d;
        }
        fired
    }
}

/// A one-shot timer: it fires once, on the frame in which its duration is
/// reached, and stays inert afterwards.
#[derive(Debug, Clone, Copy, PartialEq, Eq, Structural)]
pub struct OnceTimer {
    pub duration: u64,
    pub elapsed: u64,
    pub finished: bool,
}

impl OnceTimer {
    pub open spec fn wf(self) -> bool {
        self.elapsed <= self.duration
    }

    /// The timer after `delta` more nanoseconds, and whether it fired.
    pub open spec fn spec_tick(self, delta: u64) -> (OnceTimer, bool) {
        if self.finished {
            (self, false)
        } else if self.elapsed + delta >= self.duration {
            (OnceTimer { duration: self.duration, elapsed: self.duration, finished: true }, true)
        } else {
            (
                OnceTimer {
                    duration: self.duration,
                    elapsed: (self.elapsed + delta) as u64,
                    finished: false,
                },
                false,
            )
        }
    }

    pub fn new(duration: u64) -> (r: OnceTimer)
        ensures
            r.wf(),
            r.duration == duration,
            r.elapsed == 0,
            !r.finished,
    {
        OnceTimer { duration, elapsed: 0, finished: false }
    }

    /// Lets `delta` nanoseconds pass; returns whether the timer ran out just now.
    pub fn tick(&mut self, delta: u64) -> (fired: bool)
        requires
            old(self).wf(),
        ensures
            final(self).wf(),
            (*final(self), fired) == old(self).spec_tick(delta),
    {
        if self.finished {
            return false;
        }
        if delta >= self.duration - self.elapsed {
            self.elapsed = self.duration;
            self.finished = true;
            true
        } else {
            self.elapsed = self.elapsed + delta;
            false
        }
    }
}

} // verus!
