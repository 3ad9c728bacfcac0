//! The clocks of the machine, for whoever drives a store by them.
//!
//! What a clock shows depends on when it is read, so nothing is claimed
//! of a reading: the store is stated for every reading it may be given.

use vstd::prelude::*;
use std::time::{Instant, SystemTime};
use crate::model::next_entropy;

verus! {

/// `std::time::Instant`: a reading of the monotonic clock, taken as an
/// opaque type.
#[verifier::external_type_specification]
#[verifier::external_body]
pub struct ExInstant(Instant);

/// `std::time::SystemTime`: a reading of the wall clock, taken as an
/// opaque type.
#[verifier::external_type_specification]
#[verifier::external_body]
pub struct ExSystemTime(SystemTime);

/// `Instant::now`: the monotonic clock as it stands. Nothing is claimed
/// of the reading.
#[verifier::external_body]
fn monotonic_now() -> Instant {
    Instant::now()
}

/// `Instant::elapsed`, in whole milliseconds: the time since `origin`.
/// Nothing is claimed of the reading.
#[verifier::external_body]
fn millis_since(origin: &Instant) -> u64 {
    u64::try_from(origin.elapsed().as_millis()).unwrap_or(u64::MAX)
}

/// `SystemTime::now`: the wall clock as it stands. Nothing is claimed of
/// the reading.
#[verifier::external_body]
fn wall_now() -> SystemTime {
    SystemTime::now()
}

/// `SystemTime::duration_since` the epoch, in whole microseconds; zero
/// for a time before the epoch. Nothing is claimed of the result.
#[verifier::external_body]
fn micros_since_epoch(at: &SystemTime) -> u64 {
    match at.duration_since(SystemTime::UNIX_EPOCH) {
        Ok(since) => u64::try_from(since.as_micros()).unwrap_or(u64::MAX),
        Err(_) => 0,
    }
}

/// The random bits drawn from a reading of the clocks.
pub open spec fn seed_of(now_ms: u64, wall_us: u64) -> u64 {
    next_entropy(wall_us.wrapping_add(now_ms))
}

/// One reading of the clocks.
#[derive(Debug, Clone, Copy, PartialEq, Eq, Structural)]
pub struct Reading {
    /// Milliseconds on the monotonic clock since the clock was made.
    pub now_ms: u64,
    /// Microseconds on the wall clock since the epoch.
    pub wall_us: u64,
    /// Random bits, drawn from the two times.
    pub entropy: u64,
}

/// A monotonic clock that started when it was made, and the wall clock.
pub struct Clock {
    origin: Instant,
}

impl Clock {
    /// A clock that starts now.
    pub fn new() -> Clock {
        Clock { origin: monotonic_now() }
    }

    /// Reads the clocks.
    pub fn read(&self) -> (reading: Reading)
        ensures
            reading.entropy == seed_of(reading.now_ms, reading.wall_us),
    {
        let now_ms = millis_since(&self.origin);
        let at = wall_now();
        let wall_us = micros_since_epoch(&at);
        let entropy = wall_us.wrapping_add(now_ms).wrapping_mul(
            6364136223846793005u64,
        ).wrapping_add(1442695040888963407u64);
        Reading { now_ms, wall_us, entropy }
    }
}

impl Default for Clock {
    fn default() -> Clock {
        Clock::new()
    }
}

} // verus!
