//! Verified core of the IPC / WebSocket monitoring hub: the message formats that
//! sensors, the hub and its clients exchange, and the hub's shared state.
pub mod clock;
pub mod decimal;
pub mod hub;
pub mod laws;
pub mod protocol;
pub mod std_trusted;
pub mod text;

use vstd::prelude::*;

use crate::clock::{
    duration_secs, duration_since_unix_epoch, duration_subsec_nanos, micros_of, micros_value,
    system_time_now,
};
use crate::decimal::push_decimal;
use crate::protocol::sensor_message;

verus! {

/// Why the system clock could not be read as a time since the Unix epoch.
#[derive(Clone, Copy, Debug, PartialEq, Eq)]
pub enum ClockError {
    /// The system clock lies before 1970-01-01T00:00:00Z.
    BeforeUnixEpoch,
    /// The system clock lies beyond the last time that a UTC timestamp can hold.
    OutOfRange,
}

/// The current system time, in whole microseconds since the Unix epoch, or
/// `BeforeUnixEpoch` where the clock lies before it. Which time the clock shows
/// depends on the moment of the call; what is stated is that the result counts
/// whole seconds and nanoseconds as microseconds.
pub fn current_timestamp_micros() -> (r: Result<u128, ClockError>)
    ensures
        r matches Ok(m) ==> exists|secs: u64, nanos: u32|
            nanos < 1_000_000_000 && m == #[trigger] micros_value(secs as int, nanos as int),
        r matches Err(e) ==> e == ClockError::BeforeUnixEpoch,
{
    let now = system_time_now();
    match duration_since_unix_epoch(&now) {
        Ok(elapsed) => {
            let secs = duration_secs(&elapsed);
            let nanos = duration_subsec_nanos(&elapsed);
            Ok(micros_of(secs, nanos))
        },
        Err(_) => Err(ClockError::BeforeUnixEpoch),
    }
}

/// A sensor reading taken at `timestamp`: `<timestamp>|<prefix> #<counter>`.
pub fn format_message_at(timestamp: u128, prefix: &str, counter: u64) -> (m: String)
    ensures
        m@ == sensor_message(timestamp as nat, prefix@, counter as nat),
{
    let mut m = String::new();
    push_decimal(&mut m, timestamp);
    m.push('|');
    m.append(prefix);
    m.push(' ');
    m.push('#');
    push_decimal(&mut m, counter as u128);
    assert(m@ =~= sensor_message(timestamp as nat, prefix@, counter as nat));
    m
}

/// A sensor reading stamped with the current system time:
/// `<timestamp>|<prefix> #<counter>`, where the timestamp is the clock's reading
/// in whole microseconds.
pub fn format_message(prefix: &str, counter: u64) -> (r: Result<String, ClockError>)
    ensures
        match r {
            Ok(m) => exists|secs: u64, nanos: u32|
                nanos < 1_000_000_000 && m@ == sensor_message(
                    #[trigger] micros_value(secs as int, nanos as int) as nat,
                    prefix@,
                    counter as nat,
                ),
            Err(e) => e == ClockError::BeforeUnixEpoch,
        },
{
    let timestamp = current_timestamp_micros()?;
    let m = format_message_at(timestamp, prefix, counter);
    proof {
        let (secs, nanos) = choose|secs: u64, nanos: u32|
            nanos < 1_000_000_000 && timestamp == #[trigger] micros_value(secs as int, nanos as int);
        assert(m@ == sensor_message(micros_value(secs as int, nanos as int) as nat, prefix@, counter as nat));
    }
    Ok(m)
}

} // verus!
