//! The generator's sampling clock for one fixed-rate periodic stream.
//!
//! The value function that turns a timestamp into a reading, the output
//! channel, the timer and the cancellation signal are outside concerns; the
//! clock alone decides the stream's strictly increasing timestamps.

use vstd::prelude::*;

verus! {

/// One periodic stream's sampling clock, in milliseconds.
pub struct Sensor {
    frequency: u64,
    time: u64,
}

impl Sensor {
    /// Sampling rate in samples per second.
    pub closed spec fn freq(self) -> u64 {
        self.frequency
    }

    /// Timestamp the next sample will carry, in milliseconds.
    pub closed spec fn now(self) -> u64 {
        self.time
    }

    /// Milliseconds between consecutive samples.
    pub open spec fn period_spec(self) -> int {
        1000int / self.freq() as int
    }

    /// A rate is usable when it is positive and each period spans at least
    /// one whole millisecond, so that timestamps strictly increase.
    pub closed spec fn wf(self) -> bool {
        1 <= self.frequency <= 1000
    }

    /// A clock for a stream sampled `frequency` times per second, starting
    /// at time zero.
    pub fn new(frequency: u64) -> (s: Sensor)
        requires
            1 <= frequency <= 1000,
        ensures
            s.wf(),
            s.freq() == frequency,
            s.now() == 0,
    {
        Sensor { frequency, time: 0 }
    }

    /// The stream's period: at least one millisecond, at most one second.
    pub fn period(&self) -> (p: u64)
        requires
            self.wf(),
        ensures
            p == self.period_spec(),
            1 <= p <= 1000,
    {
        proof {
            assert(1 <= 1000int / (self.frequency as int) <= 1000) by (nonlinear_arith)
                requires
                    1 <= self.frequency <= 1000,
            ;
        }
        1000 / self.frequency
    }

    /// Timestamp of the sample to publish next.
    pub fn sample_time(&self) -> (t: u64)
        ensures
            t == self.now(),
    {
        self.time
    }

    /// Advance the clock by one period once a sample has been published;
    /// the next timestamp is strictly later.
    pub fn advance(&mut self)
        requires
            old(self).wf(),
            old(self).now() + old(self).period_spec() <= u64::MAX,
        ensures
            final(self).wf(),
            final(self).freq() == old(self).freq(),
            final(self).now() == old(self).now() + old(self).period_spec(),
            final(self).now() > old(self).now(),
    {
        proof {
            assert(1 <= 1000int / (self.frequency as int) <= 1000) by (nonlinear_arith)
                requires
                    1 <= self.frequency <= 1000,
            ;
        }
        let delay: u64 = 1000 / self.frequency;
        self.time = self.time + delay;
    }
}

} // verus!
