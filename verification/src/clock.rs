use vstd::prelude::*;

use std::time::{Duration, Instant, SystemTime};

verus! {

#[verifier::external_type_specification]
#[verifier::external_body]
pub struct ExInstant(Instant);

#[verifier::external_type_specification]
#[verifier::external_body]
pub struct ExSystemTime(SystemTime);

/// Calls `std::time::SystemTime::now()`: the system clock's reading, which
/// depends on the machine and the moment, so nothing is stated of it.
#[verifier::external_body]
fn system_now() -> (t: SystemTime) {
    SystemTime::now()
}

/// Calls `SystemTime::duration_since(UNIX_EPOCH)` on `t`: the time from the
/// epoch to `t`, or `None` where std reports an error, which its
/// documentation says happens when `t` is earlier than the epoch.  `t` is
/// opaque here, so the result is not tied to it by a clause.
#[verifier::external_body]
fn since_epoch(t: SystemTime) -> (d: Option<Duration>) {
    match t.duration_since(std::time::UNIX_EPOCH) {
        Ok(d) => Some(d),
        Err(_) => None,
    }
}

/// Calls `Duration::as_secs`: the whole seconds of `d`.  `d` is opaque here,
/// so the result is not tied to it by a clause.
#[verifier::external_body]
fn whole_secs(d: Duration) -> (s: u64) {
    d.as_secs()
}

/// The timestamp of a clock reading of `secs` whole seconds since the Unix
/// epoch (`None` for a reading before the epoch): the seconds, at most
/// `i64::MAX`, and 0 before the epoch.
pub open spec fn timestamp_of(secs: Option<u64>) -> int {
    match secs {
        Some(s) => if s <= i64::MAX {
            s as int
        } else {
            i64::MAX as int
        },
        None => 0,
    }
}

/// The timestamp for a clock reading `secs`, the whole seconds since the Unix
/// epoch (`None` when the clock reads a time before the epoch): the seconds,
/// at most `i64::MAX`, and 0 before the epoch.
pub fn timestamp_from_secs(secs: Option<u64>) -> (t: i64)
    ensures
        t == timestamp_of(secs),
        t >= 0,
        (secs matches Some(s) && s <= i64::MAX) ==> t == secs->Some_0,
        secs is None ==> t == 0,
{
    match secs {
        Some(s) => if s <= i64::MAX as u64 {
            s as i64
        } else {
            i64::MAX
        },
        None => 0,
    }
}

/// One reading of the system clock.  Only this module takes readings.
#[derive(Debug, Clone, Copy)]
pub struct ClockReading {
    secs: Option<u64>,
}

impl ClockReading {
    /// The whole seconds since the Unix epoch that the clock read, or `None`
    /// when it read a time before the epoch.
    pub closed spec fn secs(&self) -> Option<u64> {
        self.secs
    }

    /// The timestamp of this reading, in whole seconds since the epoch.
    pub fn timestamp(&self) -> (t: i64)
        ensures
            t == timestamp_of(self.secs()),
    {
        timestamp_from_secs(self.secs)
    }
}

/// Reads the system clock.
pub(crate) fn read_clock() -> (r: ClockReading) {
    let secs = match since_epoch(system_now()) {
        Some(d) => Some(whole_secs(d)),
        None => None,
    };
    ClockReading { secs }
}

/// The current time in whole seconds since the Unix epoch, read from the
/// system clock; 0 when the clock is set before the epoch.
pub(crate) fn unix_timestamp() -> (t: i64)
    ensures
        t >= 0,
{
    read_clock().timestamp()
}

/// Calls `std::time::Instant::now()`.  The value depends on the clock.
#[verifier::external_body]
pub(crate) fn instant_now() -> (i: Instant) {
    Instant::now()
}

/// Calls `std::time::Instant::elapsed()`: the time since `start`, which
/// depends on the clock.
#[verifier::external_body]
pub(crate) fn elapsed_since(start: Instant) -> (d: Duration) {
    start.elapsed()
}

} // verus!
