//! The wall clock, as milliseconds since the Unix epoch.

use vstd::prelude::*;
use std::time::{Duration, SystemTime, SystemTimeError};

verus! {

#[verifier::external_type_specification]
#[verifier::external_body]
pub struct ExSystemTime(SystemTime);

#[verifier::external_type_specification]
#[verifier::external_body]
pub struct ExSystemTimeError(SystemTimeError);

/// Reads the system clock (`SystemTime::now`). The value depends on the time
/// of the call; nothing is stated of it.
#[verifier::external_body]
fn system_now() -> (t: SystemTime) {
    SystemTime::now()
}

/// The time elapsed from the Unix epoch to `t` (`SystemTime::duration_since`),
/// or an error when `t` is earlier than the epoch. Nothing is stated of the
/// duration.
#[verifier::external_body]
fn since_unix_epoch(t: &SystemTime) -> (r: Result<Duration, SystemTimeError>) {
    t.duration_since(std::time::UNIX_EPOCH)
}

/// `Duration::as_millis` gives the whole milliseconds of a duration; nothing
/// is stated of the value.
pub assume_specification[ Duration::as_millis ](d: &Duration) -> u128;

/// The time stamp for a reading of the clock: its milliseconds since the
/// Unix epoch, or 0 when the clock read earlier than the epoch.
pub fn timestamp_from(since_epoch: Result<u128, ()>) -> (ts: u128)
    ensures
        ts == match since_epoch {
            Ok(ms) => ms,
            Err(_) => 0,
        },
{
    match since_epoch {
        Ok(ms) => ms,
        Err(_) => 0,
    }
}

/// Milliseconds since the Unix epoch, or 0 when the clock reads earlier than
/// the epoch.
pub fn get_timestamp() -> (ts: u128) {
    let now = system_now();
    let since_epoch = match since_unix_epoch(&now) {
        Ok(d) => Ok(d.as_millis()),
        Err(_) => Err(()),
    };
    timestamp_from(since_epoch)
}

} // verus!
