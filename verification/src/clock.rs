//! The system clock.

use crate::calendar;
use crate::calendar::unix_to_iso;
use std::time::Duration;
use std::time::SystemTime;
use std::time::SystemTimeError;
use vstd::prelude::*;

verus! {

/// A point in time of the system clock.
#[verifier::external_type_specification]
#[verifier::external_body]
pub struct ExSystemTime(SystemTime);

/// The error of a clock that stands before the time it is compared with.
#[verifier::external_type_specification]
#[verifier::external_body]
pub struct ExSystemTimeError(SystemTimeError);

/// `std::time::SystemTime::now`: nothing is claimed of the time that it reads.
pub assume_specification[ SystemTime::now ]() -> SystemTime;

/// The time from the Unix epoch to a point in time, or the error where the point
/// lies before the epoch.
pub uninterp spec fn epoch_elapsed(time: SystemTime) -> Result<Duration, SystemTimeError>;

/// `std::time::SystemTime::duration_since`, from the Unix epoch: a function of
/// the point in time.
#[verifier::external_body]
fn since_epoch(time: &SystemTime) -> (elapsed: Result<Duration, SystemTimeError>)
    ensures
        elapsed == epoch_elapsed(*time),
{
    time.duration_since(std::time::UNIX_EPOCH)
}

/// The length of a duration in nanoseconds.
pub uninterp spec fn nanoseconds(duration: Duration) -> nat;

/// `std::time::Duration::as_secs`: the whole seconds of the duration.
pub assume_specification[ Duration::as_secs ](duration: &Duration) -> (seconds: u64)
    ensures
        seconds == nanoseconds(*duration) / 1_000_000_000,
;

/// `std::time::Duration::as_millis`: the whole milliseconds of the duration.
pub assume_specification[ Duration::as_millis ](duration: &Duration) -> (millis: u128)
    ensures
        millis == nanoseconds(*duration) / 1_000_000,
;

/// The time since the Unix epoch that a clock at a point in time shows, unless
/// it stands before the epoch.
pub open spec fn shown_at(time: SystemTime) -> Option<Duration> {
    match epoch_elapsed(time) {
        Ok(elapsed) => Some(elapsed),
        Err(_) => None,
    }
}

/// The Unix time in seconds of a point in time; zero before the epoch.
pub open spec fn seconds_at(time: SystemTime) -> i64 {
    match shown_at(time) {
        Some(elapsed) => (nanoseconds(elapsed) / 1_000_000_000) as i64,
        None => 0,
    }
}

/// The Unix time in milliseconds of a point in time; zero before the epoch.
pub open spec fn millis_at(time: SystemTime) -> u64 {
    match shown_at(time) {
        Some(elapsed) => (nanoseconds(elapsed) / 1_000_000) as u64,
        None => 0,
    }
}

/// Time since the Unix epoch, unless the clock stands before it.
fn read_clock() -> (reading: Option<Duration>)
    ensures
        exists|time: SystemTime| reading == #[trigger] shown_at(time),
{
    let time: SystemTime = SystemTime::now();
    let reading: Option<Duration> = match since_epoch(&time) {
        Ok(elapsed) => Some(elapsed),
        Err(_) => None,
    };
    assert(reading == shown_at(time));
    reading
}

/// The Unix time of a clock reading in seconds; zero without a reading.
pub fn unix_seconds(reading: Option<u64>) -> (now: i64)
    ensures
        now == (match reading {
            Some(seconds) => seconds as i64,
            None => 0i64,
        }),
{
    match reading {
        Some(seconds) => #[verifier::truncate]
        (seconds as i64),
        None => 0,
    }
}

/// The Unix time of a clock reading in milliseconds; zero without a reading.
pub fn unix_millis(reading: Option<u128>) -> (now: u64)
    ensures
        now == (match reading {
            Some(millis) => millis as u64,
            None => 0u64,
        }),
{
    match reading {
        Some(millis) => #[verifier::truncate]
        (millis as u64),
        None => 0,
    }
}

/// The current Unix time in seconds; zero where the clock stands before the
/// epoch.
pub fn now_unix() -> (now: i64)
    ensures
        exists|time: SystemTime| now == #[trigger] seconds_at(time),
{
    let reading: Option<Duration> = read_clock();
    let ghost time = choose|time: SystemTime| reading == #[trigger] shown_at(time);
    let now: i64 = match reading {
        Some(elapsed) => unix_seconds(Some(elapsed.as_secs())),
        None => unix_seconds(None),
    };
    assert(now == seconds_at(time));
    now
}

/// The current Unix time in milliseconds; zero where the clock stands before
/// the epoch.
pub fn now_unix_millis() -> (now: u64)
    ensures
        exists|time: SystemTime| now == #[trigger] millis_at(time),
{
    let reading: Option<Duration> = read_clock();
    let ghost time = choose|time: SystemTime| reading == #[trigger] shown_at(time);
    let now: u64 = match reading {
        Some(elapsed) => unix_millis(Some(elapsed.as_millis())),
        None => unix_millis(None),
    };
    assert(now == millis_at(time));
    now
}

/// The current time as ISO 8601 text in UTC.
pub fn now_iso8601() -> (text: String)
    ensures
        exists|time: SystemTime| text@ == calendar::iso_text(#[trigger] seconds_at(time)),
{
    unix_to_iso(now_unix())
}

/// A point in time shows the whole seconds and the whole milliseconds that have
/// passed since the epoch, in as many bits as there are for them; before the epoch
/// it shows zero. Where both fit, the milliseconds are those of the same second.
pub proof fn law_clock_counts_from_the_epoch(time: SystemTime)
    ensures
        epoch_elapsed(time) is Err ==> seconds_at(time) == 0 && millis_at(time) == 0,
        epoch_elapsed(time) matches Ok(elapsed) ==> {
            &&& seconds_at(time) == (nanoseconds(elapsed) / 1_000_000_000) as i64
            &&& millis_at(time) == (nanoseconds(elapsed) / 1_000_000) as u64
            &&& nanoseconds(elapsed) / 1_000_000 <= i64::MAX ==> millis_at(time) / 1000
                == seconds_at(time)
        },
{
}

} // verus!
