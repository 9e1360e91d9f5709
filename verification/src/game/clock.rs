//! The pacer that turns passing time into ticks of a fixed length.

use vstd::prelude::*;

verus! {

/// A pacer as a value: the length of a tick and the time of the last one, both
/// in nanoseconds.
pub struct PacerView {
    pub period: u64,
    pub last: u64,
}

impl PacerView {
    /// The time that has passed at `now` since the last tick; none when the
    /// clock went backwards.
    pub open spec fn elapsed(self, now: u64) -> u64 {
        if now >= self.last {
            (now - self.last) as u64
        } else {
            0
        }
    }

    /// A tick is due at `now`: at least one period has passed.
    pub open spec fn due(self, now: u64) -> bool {
        self.elapsed(now) >= self.period
    }

    /// The pacer after it was asked at `now`. A tick that is due moves the
    /// pacer to `now`, however many periods have passed: they make one tick.
    pub open spec fn asked(self, now: u64) -> PacerView {
        if self.due(now) {
            PacerView { period: self.period, last: now }
        } else {
            self
        }
    }
}

/// Lets one tick through whenever a period has passed since the last one.
pub struct TickPacer {
    period: u64,
    last: u64,
}

impl View for TickPacer {
    type V = PacerView;

    closed spec fn view(&self) -> PacerView {
        PacerView { period: self.period, last: self.last }
    }
}

impl TickPacer {
    /// A pacer for ticks of `period` nanoseconds, the last of which was at `now`.
    pub fn new(period: u64, now: u64) -> (r: Self)
        ensures
            r@ == (PacerView { period, last: now }),
    {
        TickPacer { period, last: now }
    }

    /// Asks the pacer at the time `now`. When a tick is due, returns the time
    /// that has passed since the last one, which the tick is to cover.
    pub fn poll(&mut self, now: u64) -> (r: Option<u64>)
        ensures
            final(self)@ == old(self)@.asked(now),
            r == if old(self)@.due(now) {
                Some(old(self)@.elapsed(now))
            } else {
                None
            },
    {
        let elapsed = if now >= self.last {
            now - self.last
        } else {
            0
        };
        if elapsed >= self.period {
            self.last = now;
            Some(elapsed)
        } else {
            None
        }
    }
}

/// Between two ticks lies at least one period, and a tick leaves nothing
/// over: the pacer is not due again at the time at which it let a tick through,
/// unless the period is zero.
pub proof fn law_one_tick_per_period(pacer: PacerView, now: u64)
    requires
        pacer.due(now),
        pacer.period > 0,
    ensures
        !pacer.asked(now).due(now),
        forall|later: u64| #[trigger] pacer.asked(now).due(later) ==> later - now >= pacer.period,
{
}

} // verus!
