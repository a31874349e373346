use vstd::prelude::*;

verus! {

/// The timer of one fixed-cadence system. The driving loop owns one
/// `Cadence` per system and invokes the system only when its interval
/// has elapsed, so several logical cadences interleave under a single
/// scheduler without separate execution contexts.
pub struct Cadence {
    pub interval: u64,
    pub next_due: u64,
}

impl Cadence {
    /// A cadence that is first due right away and then every `interval`
    /// milliseconds.
    pub fn new(interval: u64, now: u64) -> (c: Cadence)
        ensures
            c.interval == interval,
            c.next_due == now,
    {
        Cadence { interval, next_due: now }
    }

    /// Decides whether the system is due at `now`; a firing reschedules
    /// the next due time one interval after `now`.
    pub fn fire(&mut self, now: u64) -> (r: bool)
        requires
            now <= u64::MAX - old(self).interval,
        ensures
            r == (now >= old(self).next_due),
            final(self).interval == old(self).interval,
            r ==> final(self).next_due == now + old(self).interval,
            !r ==> final(self).next_due == old(self).next_due,
    {
        if now >= self.next_due {
            self.next_due = now + self.interval;
            true
        } else {
            false
        }
    }
}

} // verus!
