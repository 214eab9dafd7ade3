//! Moments and the clock that reads them.

use std::time::Instant;
use vstd::prelude::*;

verus! {

/// A moment on a monotonic clock, in nanoseconds since the clock's start.
#[derive(Clone, Copy, Debug, PartialEq, Eq, Structural)]
pub struct Timestamp {
    pub nanos: u128,
}

impl View for Timestamp {
    type V = nat;

    open spec fn view(&self) -> nat {
        self.nanos as nat
    }
}

/// The nanoseconds from `earlier` to `later`, none where `earlier` is not
/// before `later`.
pub open spec fn elapsed(later: nat, earlier: nat) -> nat {
    if later >= earlier {
        (later - earlier) as nat
    } else {
        0
    }
}

impl Timestamp {
    /// The nanoseconds that have passed since `earlier`, none where `earlier`
    /// lies ahead.
    pub fn duration_since(self, earlier: Timestamp) -> (nanos: u128)
        ensures
            nanos == elapsed(self@, earlier@),
            self.nanos >= earlier.nanos ==> nanos == self.nanos - earlier.nanos,
            self.nanos < earlier.nanos ==> nanos == 0,
    {
        if self.nanos >= earlier.nanos {
            self.nanos - earlier.nanos
        } else {
            0
        }
    }
}

/// `std::time::Instant`, an opaque reading of the system's monotonic clock.
#[verifier::external_type_specification]
#[verifier::external_body]
pub struct ExInstant(Instant);

/// `std::time::Instant::now`, the present reading. Nothing is claimed of it:
/// it depends on when the call is made.
pub assume_specification[ Instant::now ]() -> Instant;

/// Calls `std::time::Instant::elapsed`, the time since `start`, and gives it in
/// nanoseconds. Nothing is claimed of it: it depends on when the call is made.
#[verifier::external_body]
fn nanos_since(start: &Instant) -> u128 {
    start.elapsed().as_nanos()
}

/// A monotonic clock that counts from the moment it was started.
pub struct Clock {
    start: Instant,
}

impl Clock {
    /// The clock counts from a reading that `Instant::now` gave.
    pub closed spec fn is_started(self) -> bool {
        call_ensures(Instant::now, (), self.start)
    }

    /// `moment` is the time that `Instant::elapsed` gave for the clock's start.
    pub closed spec fn reads(self, moment: Timestamp) -> bool {
        call_ensures(nanos_since, (&self.start,), moment.nanos)
    }

    /// A clock that starts now.
    pub fn start() -> (clock: Clock)
        ensures
            clock.is_started(),
    {
        Clock { start: Instant::now() }
    }

    /// The present moment. It is not a function of the clock: two readings of
    /// one clock may differ.
    pub fn now(&self) -> (moment: Timestamp)
        ensures
            self.reads(moment),
    {
        Timestamp { nanos: nanos_since(&self.start) }
    }
}

/// A reading of a clock is what the elapsed time since the clock's start came
/// to, to the nanosecond, and nothing else is a reading.
proof fn law_reading_is_the_time_since_the_start(clock: Clock, moment: Timestamp)
    ensures
        clock.reads(moment) <==> call_ensures(nanos_since, (&clock.start,), moment.nanos),
        clock.is_started() <==> call_ensures(Instant::now, (), clock.start),
{
}

/// The time from one moment to a later one is the difference of the two, at
/// every moment, and there is none from a later moment to an earlier one.
pub proof fn law_elapsed_is_the_difference(later: Timestamp, earlier: Timestamp)
    ensures
        later@ == later.nanos,
        earlier.nanos <= later.nanos ==> elapsed(later@, earlier@) + earlier.nanos == later.nanos,
        later.nanos < earlier.nanos ==> elapsed(later@, earlier@) == 0,
{
}

} // verus!
