//! Clock readings, taken once and handed to the stages as plain values.

use crate::message::Timestamp;
use vstd::prelude::*;

verus! {

#[verifier::external_type_specification]
#[verifier::external_body]
pub struct ExInstant(tokio::time::Instant);

/// Reads the monotonic clock with `tokio::time::Instant::now`. Nothing is
/// claimed of the reading.
#[verifier::external_body]
fn instant_now() -> (r: tokio::time::Instant) {
    tokio::time::Instant::now()
}

/// The nanoseconds that `tokio::time::Instant::elapsed` reports since
/// `origin`. Nothing is claimed of the reading.
#[verifier::external_body]
fn nanos_since(origin: &tokio::time::Instant) -> (r: u128) {
    origin.elapsed().as_nanos()
}

/// One reading of the clocks: nanoseconds on a monotonic clock since its
/// origin, and the wall clock at the same moment.
#[derive(Clone, Copy, Debug, PartialEq, Eq, Structural)]
pub struct Tick {
    pub nanos: u128,
    pub wall: Timestamp,
}

/// A monotonic clock that counts from the moment it was started.
pub struct Clock {
    origin: tokio::time::Instant,
}

impl Clock {
    /// A clock whose origin is now.
    pub fn start() -> (r: Clock) {
        Clock { origin: instant_now() }
    }

    /// Reads the clock.
    pub fn tick(&self) -> (r: Tick) {
        Tick { nanos: nanos_since(&self.origin), wall: Timestamp::now() }
    }
}

/// The time from `earlier` to `later`, zero where `later` is not later.
pub open spec fn elapsed(earlier: nat, later: nat) -> nat {
    if later >= earlier {
        (later - earlier) as nat
    } else {
        0
    }
}

/// The time from `earlier` to `later`, zero where `later` is not later.
pub fn elapsed_nanos(earlier: u128, later: u128) -> (r: u128)
    ensures
        r == elapsed(earlier as nat, later as nat),
{
    if later >= earlier {
        later - earlier
    } else {
        0
    }
}

} // verus!
