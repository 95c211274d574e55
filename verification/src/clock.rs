//! The seed of a roll: the nanoseconds of the current second.
use std::time::Duration;
use std::time::SystemTime;
use vstd::prelude::*;

verus! {

/// How many nanoseconds a second has: every seed lies below.
pub const NANOS_PER_SECOND: u32 = 1_000_000_000;

/// A point in time.
#[verifier::external_type_specification]
#[verifier::external_body]
pub struct ExSystemTime(SystemTime);

/// How many nanoseconds a point in time lies behind the Unix epoch; below zero where
/// it lies before it.
pub uninterp spec fn nanos_since_epoch(time: SystemTime) -> int;

/// How many nanoseconds a duration lasts.
pub uninterp spec fn nanos_of(duration: Duration) -> nat;

/// The seed that a point in time gives: the nanoseconds of its second. There is none
/// before the Unix epoch.
pub open spec fn seed_of(time: SystemTime) -> Option<u32> {
    if nanos_since_epoch(time) < 0 {
        None
    } else {
        Some((nanos_since_epoch(time) % NANOS_PER_SECOND as int) as u32)
    }
}

/// `SystemTime::now` reads the system's clock. Nothing is stated of what it shows.
pub assume_specification[ SystemTime::now ]() -> SystemTime;

/// `SystemTime::duration_since`, from the Unix epoch, returns the time elapsed from
/// there to the given point, and fails where that point lies before the epoch.
#[verifier::external_body]
fn since_epoch(time: SystemTime) -> (r: Option<Duration>)
    ensures
        match r {
            Some(elapsed) => nanos_of(elapsed) == nanos_since_epoch(time),
            None => nanos_since_epoch(time) < 0,
        },
{
    time.duration_since(SystemTime::UNIX_EPOCH).ok()
}

/// `Duration::subsec_nanos` returns the part of a duration that is less than a
/// second, in nanoseconds.
pub assume_specification[ Duration::subsec_nanos ](duration: &Duration) -> (nanos: u32)
    ensures
        nanos == nanos_of(*duration) % NANOS_PER_SECOND as nat,
;

/// The nanoseconds of the second of a point in time, or `None` where that lies before
/// the Unix epoch.
pub fn seed_at(time: SystemTime) -> (seed: Option<u32>)
    ensures
        seed == seed_of(time),
        seed matches Some(nanos) ==> nanos < NANOS_PER_SECOND,
{
    match since_epoch(time) {
        Some(elapsed) => Some(elapsed.subsec_nanos()),
        None => None,
    }
}

/// The nanoseconds of the current second, or `None` where the clock stands before
/// the Unix epoch: the seed of the one point in time that the clock shows.
pub fn seed() -> (seed: Option<u32>)
    ensures
        exists|time: SystemTime| seed == #[trigger] seed_of(time),
        seed matches Some(nanos) ==> nanos < NANOS_PER_SECOND,
{
    seed_at(SystemTime::now())
}

} // verus!
