//! Readings of the system clock. What the clock reads is not a function of
//! anything the library holds, so nothing is promised of the values.
use std::time::{Duration, Instant};
use vstd::prelude::*;

verus! {

/// A point in time as `std::time::Instant` gives it; opaque to the proofs.
#[verifier::external_type_specification]
#[verifier::external_body]
pub struct ExInstant(std::time::Instant);

/// Calls `std::time::Instant::now`. The contract promises nothing of the
/// reading: it depends on the moment of the call.
#[verifier::external_body]
pub fn instant_now() -> (t: Instant) {
    Instant::now()
}

/// The time elapsed since an instant, as `Instant::elapsed` measured it,
/// together with the instant it was measured from. Only this module makes one,
/// so the instant it names is the one the measurement started from.
pub struct Elapsed {
    since: Instant,
    duration: Duration,
}

impl Elapsed {
    /// The instant the measurement started from.
    pub closed spec fn since(self) -> Instant {
        self.since
    }
}

/// The milliseconds elapsed since an instant, together with the instant they
/// were measured from. Only this module makes one.
pub struct ElapsedMillis {
    since: Instant,
    millis: u128,
}

impl ElapsedMillis {
    /// The instant the measurement started from.
    pub closed spec fn since(self) -> Instant {
        self.since
    }

    /// The milliseconds measured.
    pub closed spec fn millis(self) -> u128 {
        self.millis
    }

    /// The milliseconds measured.
    pub fn ms(&self) -> (r: u128)
        ensures
            r == self.millis(),
    {
        self.millis
    }
}

/// Calls `std::time::Instant::elapsed` on `t`. The contract states only that
/// the measurement is recorded as starting from `t`; nothing is promised of
/// the duration, which depends on the moment of the call.
#[verifier::external_body]
pub fn instant_elapsed(t: &Instant) -> (e: Elapsed)
    ensures
        e.since() == *t,
{
    Elapsed { since: *t, duration: t.elapsed() }
}

/// Calls `std::time::Duration::as_millis` on a measured duration. The contract
/// states only that the milliseconds keep the instant the measurement started
/// from; a `Duration` is opaque to the proofs, so nothing is stated of the
/// number.
#[verifier::external_body]
pub fn duration_as_millis(e: &Elapsed) -> (m: ElapsedMillis)
    ensures
        m.since() == e.since(),
{
    ElapsedMillis { since: e.since, millis: e.duration.as_millis() }
}

} // verus!
