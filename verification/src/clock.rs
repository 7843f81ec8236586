//! The two clocks the hub reads: std's `SystemTime`, for the sensor readings,
//! and chrono's UTC timestamps, for the reception stamps. What the clock shows
//! depends on the moment of the call, so nothing is stated of it; what is stated
//! is how a reading becomes microseconds.
use vstd::prelude::*;

use std::time::{Duration, SystemTime, SystemTimeError, UNIX_EPOCH};

use crate::ClockError;

verus! {

#[verifier::external_type_specification]
#[verifier::external_body]
pub struct ExSystemTime(SystemTime);

#[verifier::external_type_specification]
#[verifier::external_body]
pub struct ExSystemTimeError(SystemTimeError);

/// Calls `SystemTime::now`: the current time, of which nothing is stated.
#[verifier::external_body]
pub(crate) fn system_time_now() -> SystemTime {
    SystemTime::now()
}

/// Calls `SystemTime::duration_since` with `UNIX_EPOCH`: the time elapsed since the
/// Unix epoch, or an error when `t` lies before it. Neither outcome is stated.
#[verifier::external_body]
pub(crate) fn duration_since_unix_epoch(t: &SystemTime) -> Result<Duration, SystemTimeError> {
    t.duration_since(UNIX_EPOCH)
}

/// Calls `Duration::as_secs`: the whole seconds in `d`. A `Duration` is opaque
/// here, so the value is left unstated.
#[verifier::external_body]
pub(crate) fn duration_secs(d: &Duration) -> u64 {
    d.as_secs()
}

/// Calls `Duration::subsec_nanos`: the nanoseconds of `d` beyond its whole
/// seconds, which the std documentation says is always less than one billion.
#[verifier::external_body]
pub(crate) fn duration_subsec_nanos(d: &Duration) -> (n: u32)
    ensures
        n < 1_000_000_000,
{
    d.subsec_nanos()
}

/// Calls chrono's `DateTime::<Utc>::from_timestamp(secs, nsecs)` and reads the
/// result, where there is one, with `timestamp_micros`. chrono documents that
/// `from_timestamp` round-trips with `timestamp` and `timestamp_subsec_nanos`, so
/// the microseconds are `secs * 1_000_000 + nsecs / 1_000`; and its source
/// (`NaiveDate` reaches the year 262142) accepts every whole second from the epoch
/// up to 8_000_000_000_000 with fewer than a billion nanoseconds. Whether it
/// accepts other inputs is left unstated.
#[verifier::external_body]
fn utc_timestamp_micros(secs: i64, nsecs: u32) -> (r: Option<i64>)
    ensures
        r matches Some(m) ==> m == secs * 1_000_000 + nsecs / 1_000,
        0 <= secs <= 8_000_000_000_000 && nsecs < 1_000_000_000 ==> r is Some,
{
    match chrono::DateTime::<chrono::Utc>::from_timestamp(secs, nsecs) {
        Some(t) => Some(t.timestamp_micros()),
        None => None,
    }
}

/// The whole microseconds in `secs` seconds and `nanos` nanoseconds.
pub open spec fn micros_value(secs: int, nanos: int) -> int {
    secs * 1_000_000 + nanos / 1_000
}

/// The whole microseconds in a duration of `secs` seconds and `nanos` nanoseconds,
/// as `Duration::as_micros` counts them.
pub fn micros_of(secs: u64, nanos: u32) -> (m: u128)
    requires
        nanos < 1_000_000_000,
    ensures
        m == micros_value(secs as int, nanos as int),
{
    assert(secs * 1_000_000 <= u64::MAX * 1_000_000) by (nonlinear_arith);
    (secs as u128) * 1_000_000 + (nanos / 1_000) as u128
}

/// The UTC timestamp, in microseconds since the Unix epoch, of a clock reading
/// `secs` whole seconds and `nanos` nanoseconds after it, as chrono's
/// `from_timestamp` and `timestamp_micros` give it; `OutOfRange` where chrono
/// holds no such time. Every reading up to 8_000_000_000_000 seconds has one.
pub fn utc_micros_of(secs: u64, nanos: u32) -> (r: Result<i64, ClockError>)
    requires
        nanos < 1_000_000_000,
    ensures
        r matches Ok(m) ==> m == micros_value(secs as int, nanos as int),
        secs <= 8_000_000_000_000 ==> r is Ok,
        r matches Err(e) ==> e == ClockError::OutOfRange,
{
    if secs > 0x7fff_ffff_ffff_ffffu64 {
        return Err(ClockError::OutOfRange);
    }
    match utc_timestamp_micros(secs as i64, nanos) {
        Some(m) => Ok(m),
        None => Err(ClockError::OutOfRange),
    }
}

/// The current UTC time in microseconds since the Unix epoch, as chrono's
/// `Utc::now().timestamp_micros()` gives it: the system clock read as whole seconds
/// and nanoseconds since the epoch, turned into a UTC timestamp by `utc_micros_of`.
/// Where the clock lies before the epoch the result is `BeforeUnixEpoch`; where
/// chrono has no timestamp for the reading it is `OutOfRange`, which happens only
/// beyond 8_000_000_000_000 seconds.
pub fn utc_now_micros() -> (r: Result<i64, ClockError>)
    ensures
        r matches Ok(m) ==> exists|secs: u64, nanos: u32|
            nanos < 1_000_000_000 && m == #[trigger] micros_value(secs as int, nanos as int),
{
    let now = system_time_now();
    match duration_since_unix_epoch(&now) {
        Ok(elapsed) => {
            let secs = duration_secs(&elapsed);
            let nanos = duration_subsec_nanos(&elapsed);
            utc_micros_of(secs, nanos)
        },
        Err(_) => Err(ClockError::BeforeUnixEpoch),
    }
}

/// The UTC clock as the hub reads it: a record of every reading taken through
/// it, in order. Only `read` adds to the record, so a stamp that a contract ties
/// to the record's last entry is a reading taken during that call.
pub struct UtcClock {
    readings: Ghost<Seq<Result<i64, ClockError>>>,
}

impl UtcClock {
    /// The readings taken so far, oldest first.
    pub closed spec fn readings(&self) -> Seq<Result<i64, ClockError>> {
        self.readings@
    }

    /// A clock that has not been read yet.
    pub fn new() -> (c: UtcClock)
        ensures
            c.readings() == Seq::<Result<i64, ClockError>>::empty(),
    {
        UtcClock { readings: Ghost(Seq::empty()) }
    }

    /// Reads the UTC clock once, as `utc_now_micros` does, and records the reading.
    pub fn read(&mut self) -> (r: Result<i64, ClockError>)
        ensures
            final(self).readings() == old(self).readings().push(r),
            r matches Ok(m) ==> exists|secs: u64, nanos: u32|
                nanos < 1_000_000_000 && m == #[trigger] micros_value(secs as int, nanos as int),
    {
        let r = utc_now_micros();
        self.readings = Ghost(self.readings@.push(r));
        r
    }
}

} // verus!
