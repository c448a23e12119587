//! A stopwatch that is read when asked.

use std::time::{Duration, Instant};
use vstd::prelude::*;

verus! {

/// `std::time::Instant`, a moment on the clock. Nothing inside it is
/// known to the proofs; it is only carried.
#[verifier::external_type_specification]
#[verifier::external_body]
pub struct ExInstant(Instant);

/// The whole length of a span of time in nanoseconds, as
/// `Duration::as_nanos` gives it.
pub uninterp spec fn as_nanos(span: Duration) -> u128;

/// `Duration::as_nanos`: the length of `span` in nanoseconds.
#[verifier::external_body]
fn nanos_of(span: &Duration) -> (nanos: u128)
    ensures
        nanos == as_nanos(*span),
{
    span.as_nanos()
}

/// `Duration::ZERO`: the span of no time, whose length in nanoseconds
/// is zero.
#[verifier::external_body]
pub(crate) fn no_time() -> (span: Duration)
    ensures
        as_nanos(span) == 0,
{
    Duration::ZERO
}

/// `Instant::now`: the present moment. Nothing is claimed of it.
#[verifier::external_body]
fn now() -> Instant {
    Instant::now()
}

/// `Instant::elapsed`: the time that has gone by since `start`. Nothing
/// is claimed of it.
#[verifier::external_body]
fn since(start: &Instant) -> Duration {
    start.elapsed()
}

/// Measures the time since it was started and tells whether a set
/// duration has been reached. The time is read by [`Timer::update`]
/// only; between two readings the timer does not change.
pub struct Timer {
    pub duration: Duration,
    elapsed_time: Duration,
    instant: Instant,
}

impl Timer {
    /// The duration to reach.
    pub closed spec fn goal(&self) -> Duration {
        self.duration
    }

    /// The time that went by, as last read.
    pub closed spec fn elapsed(&self) -> Duration {
        self.elapsed_time
    }

    /// The moment from which the time is measured.
    pub closed spec fn started(&self) -> Instant {
        self.instant
    }

    /// Whether the time last read reaches the duration.
    pub open spec fn finished(&self) -> bool {
        as_nanos(self.elapsed()) >= as_nanos(self.goal())
    }

    /// A timer that starts now, with no time read yet.
    pub fn new(duration: Duration) -> (timer: Self)
        ensures
            timer.goal() == duration,
            as_nanos(timer.elapsed()) == 0,
    {
        Self { duration, elapsed_time: no_time(), instant: now() }
    }

    /// Reads the clock: the time that went by since the timer was started
    /// is what [`Timer::is_finished`] judges from now on. What the clock
    /// says is not known beforehand; the duration to reach and the moment
    /// from which the time is measured stay.
    pub fn update(&mut self)
        ensures
            final(self).goal() == old(self).goal(),
            final(self).started() == old(self).started(),
    {
        let elapsed = since(&self.instant);
        self.record(elapsed)
    }

    /// Takes `elapsed` as the time that went by.
    pub fn record(&mut self, elapsed: Duration)
        ensures
            final(self).goal() == old(self).goal(),
            final(self).started() == old(self).started(),
            final(self).elapsed() == elapsed,
    {
        self.elapsed_time = elapsed;
    }

    /// The duration to reach.
    pub fn get_duration(&self) -> (duration: Duration)
        ensures
            duration == self.goal(),
    {
        self.duration
    }

    /// Sets the duration to reach. The time read so far stays.
    pub fn set_duration(&mut self, duration: Duration)
        ensures
            final(self).goal() == duration,
            final(self).elapsed() == old(self).elapsed(),
    {
        self.duration = duration;
    }

    /// Whether the time last read reaches the duration. The clock is not
    /// read.
    pub fn is_finished(&self) -> (finished: bool)
        ensures
            finished == self.finished(),
    {
        nanos_of(&self.elapsed_time) >= nanos_of(&self.duration)
    }

    /// Starts the timer again from now, with no time read.
    pub fn reset(&mut self)
        ensures
            final(self).goal() == old(self).goal(),
            as_nanos(final(self).elapsed()) == 0,
    {
        self.elapsed_time = no_time();
        self.instant = now();
    }
}

} // verus!
