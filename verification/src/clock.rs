//! A monotonic clock, read as nanoseconds since the clock was started.

use std::time::{Duration, Instant};
use vstd::prelude::*;

verus! {

#[verifier::external_type_specification]
#[verifier::external_body]
pub struct ExInstant(Instant);

/// The latest time the clock reports; later readings are held at it, so that
/// adding the longest lifetime of a token never overflows.
pub const CLOCK_LIMIT: u64 = 18446740473709551615;

/// Trusted: `std::time::Instant::now`. Nothing is claimed of the instant.
#[verifier::external_body]
fn instant_now() -> Instant {
    Instant::now()
}

/// Trusted: `std::time::Instant::elapsed`. Nothing is claimed of the span.
#[verifier::external_body]
fn instant_elapsed(start: &Instant) -> Duration {
    start.elapsed()
}

/// Trusted: `std::time::Duration::as_nanos`. Nothing is claimed of the value,
/// since the span it reads is opaque here.
#[verifier::external_body]
fn duration_as_nanos(span: &Duration) -> u128 {
    span.as_nanos()
}

/// A monotonic clock started when it was made. It remembers its latest
/// reading, and never reports an earlier time than that.
pub struct Clock {
    started: Instant,
    latest: u64,
}

impl Clock {
    #[verifier::type_invariant]
    spec fn readings_in_range(&self) -> bool {
        self.latest <= CLOCK_LIMIT
    }

    /// The latest time the clock reported, or 0 before its first reading.
    pub closed spec fn reading(&self) -> u64 {
        self.latest
    }

    /// Starts a clock.
    pub fn start() -> (c: Clock)
        ensures
            c.reading() == 0,
    {
        Clock { started: instant_now(), latest: 0 }
    }

    /// The reading a clock that last read `latest` gives when `nanos`
    /// nanoseconds have passed since it started: the elapsed time held at
    /// `CLOCK_LIMIT`, or the previous reading if that was later.
    pub open spec fn next_reading(latest: u64, nanos: u128) -> u64 {
        let capped: u64 = if nanos > CLOCK_LIMIT as u128 {
            CLOCK_LIMIT
        } else {
            nanos as u64
        };
        if capped > latest {
            capped
        } else {
            latest
        }
    }

    /// Advances the clock to `nanos` nanoseconds after its start, held at
    /// `CLOCK_LIMIT`; a clock never goes back, so an earlier time leaves it at
    /// its previous reading.
    pub fn advance(&mut self, nanos: u128) -> (t: u64)
        ensures
            t == Clock::next_reading(old(self).reading(), nanos),
            final(self).reading() == t,
            old(self).reading() <= t <= CLOCK_LIMIT,
            nanos <= CLOCK_LIMIT ==> nanos <= t,
            nanos > CLOCK_LIMIT ==> t == CLOCK_LIMIT,
    {
        proof {
            use_type_invariant(&*self);
        }
        let t = if nanos > CLOCK_LIMIT as u128 {
            CLOCK_LIMIT
        } else {
            nanos as u64
        };
        if t > self.latest {
            self.latest = t;
        }
        self.latest
    }

    /// Nanoseconds since the clock was started, held at `CLOCK_LIMIT`; never
    /// less than the clock's previous reading. The elapsed time is read from
    /// the machine's monotonic clock, which nothing here can name; the
    /// reading is then `advance`d to it.
    pub fn now(&mut self) -> (t: u64)
        ensures
            old(self).reading() <= t <= CLOCK_LIMIT,
            final(self).reading() == t,
    {
        let span = instant_elapsed(&self.started);
        let nanos = duration_as_nanos(&span);
        self.advance(nanos)
    }
}

} // verus!
