//! A mock source of time whose progress is controlled explicitly.
//!
//! Time is counted in nanoseconds from the instant at which the clock was created.
use vstd::prelude::*;

verus! {

/// The largest duration, in nanoseconds, that a `std::time::Duration` can hold.
pub const MAX_DURATION_NANOS: u128 = 18446744073709551615999999999u128;

/// A mock clock: the amount of mock time that has elapsed since its base instant.
#[derive(Debug)]
pub struct MockClock {
    advance: u128,
}

impl MockClock {
    /// Nanoseconds elapsed since the base instant.
    pub closed spec fn elapsed(&self) -> nat {
        self.advance as nat
    }

    pub closed spec fn wf(&self) -> bool {
        self.advance <= MAX_DURATION_NANOS
    }

    /// A clock at its base instant.
    pub fn new() -> (c: MockClock)
        ensures
            c.wf(),
            c.elapsed() == 0,
    {
        MockClock { advance: 0 }
    }

    /// Advances the clock by `duration` nanoseconds.
    pub fn advance(&mut self, duration: u128)
        requires
            old(self).wf(),
            old(self).elapsed() + duration <= MAX_DURATION_NANOS,
        ensures
            final(self).wf(),
            final(self).elapsed() == old(self).elapsed() + duration,
    {
        self.advance = self.advance + duration;
    }

    /// The current mock time, in nanoseconds since the base instant.
    pub fn now(&self) -> (t: u128)
        ensures
            t == self.elapsed(),
    {
        self.advance
    }

    /// Parking with a timeout advances mock time by the whole timeout at once, and
    /// returns the timeout with which the underlying parker is then polled: zero.
    pub fn park_timeout(&mut self, duration: u128) -> (inner_timeout: u128)
        requires
            old(self).wf(),
            old(self).elapsed() + duration <= MAX_DURATION_NANOS,
        ensures
            final(self).wf(),
            final(self).elapsed() == old(self).elapsed() + duration,
            inner_timeout == 0,
    {
        self.advance(duration);
        0
    }

    /// The deadline of a delay created `from_now` nanoseconds after the current time.
    pub fn deadline_from(&self, from_now: u128) -> (deadline: u128)
        requires
            self.elapsed() + from_now <= u128::MAX,
        ensures
            deadline == self.elapsed() + from_now,
    {
        self.advance + from_now
    }
}

} // verus!
