//! A stopwatch over the monotonic clock.
use std::time::Instant;
use vstd::prelude::*;

verus! {

#[verifier::external_type_specification]
#[verifier::external_body]
pub struct ExInstant(Instant);

/// Relies on `Instant::now`: a reading of the monotonic clock.
#[verifier::external_body]
fn clock_now() -> (r: Instant) {
    Instant::now()
}

/// Relies on `Instant::elapsed` and `Duration::as_nanos`: the whole
/// nanoseconds since `start`.
#[verifier::external_body]
fn nanos_since(start: &Instant) -> (r: u128) {
    start.elapsed().as_nanos()
}

/// Measures time from its start; durations are in whole nanoseconds.
pub struct Stopwatch {
    start_time: Option<Instant>,
    elapsed: u128,
}

impl Stopwatch {
    pub closed spec fn is_started(&self) -> bool {
        self.start_time is Some
    }

    /// Time measured before the current start.
    pub closed spec fn accumulated(&self) -> nat {
        self.elapsed as nat
    }

    /// A stopwatch that has not started and has measured nothing.
    pub fn new() -> (r: Self)
        ensures
            !r.is_started(),
            r.accumulated() == 0,
    {
        Stopwatch { start_time: None, elapsed: 0 }
    }

    /// Starts the stopwatch; a started one is left as it is.
    pub fn start(&mut self)
        ensures
            final(self).is_started(),
            final(self).accumulated() == old(self).accumulated(),
            old(self).is_started() ==> *final(self) == *old(self),
    {
        if self.start_time.is_none() {
            self.start_time = Some(clock_now());
        }
    }

    /// Stops the stopwatch and forgets what it measured.
    pub fn reset(&mut self)
        ensures
            !final(self).is_started(),
            final(self).accumulated() == 0,
    {
        self.start_time = None;
        self.elapsed = 0;
    }

    /// The time measured so far: what was measured before, plus the time
    /// since the start where the stopwatch runs (at most `u128::MAX`).
    pub fn elapsed(&self) -> (r: u128)
        ensures
            !self.is_started() ==> r == self.accumulated(),
            self.is_started() ==> r >= self.accumulated(),
    {
        match &self.start_time {
            Some(start) => {
                let since = nanos_since(start);
                if since > u128::MAX - self.elapsed {
                    u128::MAX
                } else {
                    self.elapsed + since
                }
            },
            None => self.elapsed,
        }
    }
}

} // verus!
