use vstd::prelude::*;

verus! {

/// A throttle that fires on the first call and then once every `max + 1`
/// calls.
pub struct Counter {
    i: u8,
    max: u8,
}

impl Counter {
    #[verifier::type_invariant]
    spec fn inv(self) -> bool {
        self.i <= self.max
    }

    /// Number of calls since the counter last fired; equal to `period` when
    /// the counter is about to fire.
    pub closed spec fn ticks(&self) -> u8 {
        self.i
    }

    /// The counter fires when `ticks` has reached this value.
    pub closed spec fn period(&self) -> u8 {
        self.max
    }

    /// Whether the next call of `count` fires.
    pub open spec fn due(&self) -> bool {
        self.ticks() == self.period()
    }

    pub fn new(max: u8) -> (c: Self)
        ensures
            c.ticks() == max,
            c.period() == max,
            c.due(),
    {
        Self { i: max, max }
    }

    /// Fires if due and starts over; counts one tick otherwise.
    pub fn count(&mut self) -> (fired: bool)
        ensures
            fired == old(self).due(),
            final(self).period() == old(self).period(),
            final(self).ticks() == if fired { 0 } else { old(self).ticks() + 1 },
            final(self).ticks() <= final(self).period(),
    {
        proof {
            use_type_invariant(&*self);
        }
        if self.i == self.max {
            self.i = 0;
            true
        } else {
            self.i += 1;
            false
        }
    }
}

} // verus!
