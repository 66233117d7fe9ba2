use vstd::prelude::*;

verus! {

/// Fixed-step simulation clock: a tick size and the number of ticks run.
pub struct SimulationClock {
    tick_micros: u64,
    ticks: u64,
}

impl SimulationClock {
    pub closed spec fn tick_spec(&self) -> int {
        self.tick_micros as int
    }

    pub closed spec fn ticks_spec(&self) -> int {
        self.ticks as int
    }

    /// A clock at zero with ticks of `tick_micros` microseconds.
    pub fn new(tick_micros: u64) -> (r: SimulationClock)
        ensures
            r.tick_spec() == tick_micros,
            r.ticks_spec() == 0,
    {
        SimulationClock { tick_micros, ticks: 0 }
    }

    /// Tick size in microseconds.
    pub fn tick_micros(&self) -> (r: u64)
        ensures
            r == self.tick_spec(),
    {
        self.tick_micros
    }

    /// Number of ticks run so far.
    pub fn ticks(&self) -> (r: u64)
        ensures
            r == self.ticks_spec(),
    {
        self.ticks
    }

    /// Simulated time elapsed, in microseconds.
    pub fn elapsed_micros(&self) -> (r: u128)
        ensures
            r == self.ticks_spec() * self.tick_spec(),
    {
        proof {
            assert(0 <= self.ticks_spec() * self.tick_spec() <= 0xffff_ffff_ffff_ffff
                * 0xffff_ffff_ffff_ffff) by (nonlinear_arith)
                requires
                    0 <= self.ticks_spec() <= 0xffff_ffff_ffff_ffff,
                    0 <= self.tick_spec() <= 0xffff_ffff_ffff_ffff,
            ;
        }
        self.ticks as u128 * self.tick_micros as u128
    }

    /// Counts one more tick; the count stops at `u64::MAX`.
    pub fn advance(&mut self)
        ensures
            final(self).tick_spec() == old(self).tick_spec(),
            old(self).ticks_spec() < u64::MAX ==> final(self).ticks_spec() == old(self).ticks_spec()
                + 1,
            old(self).ticks_spec() == u64::MAX ==> final(self).ticks_spec() == u64::MAX,
    {
        if self.ticks < u64::MAX {
            self.ticks = self.ticks + 1;
        }
    }
}

} // verus!
