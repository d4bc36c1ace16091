use rand::Rng;
use std::time::{Duration, SystemTime, SystemTimeError};
use vstd::prelude::*;

verus! {

/// Draws a nonce below `upper_limit` from the thread's generator, by
/// `rand::thread_rng` and `Rng::gen_range` on `0..upper_limit`. The range must
/// not be empty; the draw lies in it, and nothing else is known of it.
/// `thread_rng` does not return where the system gives it no entropy.
#[verifier::external_body]
pub fn get_random_nonce(upper_limit: u32) -> (nonce: u32)
    requires
        upper_limit > 0,
    ensures
        nonce < upper_limit,
{
    rand::thread_rng().gen_range(0..upper_limit)
}

/// Makes a fresh time-ordered identifier by `uuid::Uuid::now_v7` and writes it
/// in the hyphenated form, which has 36 characters. Which identifier comes
/// out depends on the clock and on chance, so nothing else is claimed of it:
/// not that it differs from an earlier one, nor that it is greater. `now_v7`
/// does not return where the system clock stands before the start of Unix
/// time.
#[verifier::external_body]
pub(crate) fn fresh_identifier() -> (id: String)
    ensures
        id@.len() == 36,
{
    uuid::Uuid::now_v7().to_string()
}

/// `std::time::SystemTime`, a reading of the system clock.
#[verifier::external_type_specification]
#[verifier::external_body]
pub struct ExSystemTime(SystemTime);

/// `std::time::SystemTimeError`, the error of a reading that lies before the
/// time it is compared with.
#[verifier::external_type_specification]
#[verifier::external_body]
pub struct ExSystemTimeError(SystemTimeError);

/// `SystemTime::now` reads the system clock. Nothing is known of the reading.
pub assume_specification[ SystemTime::now ]() -> SystemTime;

/// `SystemTime::duration_since` gives the time that has passed from `earlier`
/// to the reading, or an error where the reading lies before `earlier`.
pub assume_specification[ SystemTime::duration_since ](
    reading: &SystemTime,
    earlier: SystemTime,
) -> Result<Duration, SystemTimeError>;

/// The whole seconds that a duration holds.
pub uninterp spec fn whole_seconds(duration: Duration) -> u64;

/// `Duration::as_secs` gives the whole seconds of a duration, which depend on
/// the duration alone.
pub assume_specification[ Duration::as_secs ](duration: &Duration) -> (secs: u64)
    ensures
        secs == whole_seconds(*duration),
;

/// The start of Unix time, `std::time::UNIX_EPOCH`.
#[verifier::external_body]
fn unix_epoch() -> SystemTime {
    std::time::UNIX_EPOCH
}

/// Why the time could not be told.
#[derive(Clone, Copy, Debug, PartialEq, Eq, Structural)]
pub enum TimeError {
    /// The system clock stands before the start of Unix time.
    BeforeUnixEpoch,
}

/// The whole seconds that have passed since the start of Unix time, by the
/// system clock.
pub fn get_unix_timestamp_now() -> Result<u64, TimeError> {
    let reading = SystemTime::now();
    unix_timestamp_of(reading.duration_since(unix_epoch()))
}

/// The timestamp for the time that has passed since the start of Unix time:
/// its whole seconds, or the error of a clock that stands before that start.
pub fn unix_timestamp_of(elapsed: Result<Duration, SystemTimeError>) -> (timestamp: Result<
    u64,
    TimeError,
>)
    ensures
        elapsed matches Ok(duration) ==> timestamp == Ok::<u64, TimeError>(
            whole_seconds(duration),
        ),
        elapsed is Err ==> timestamp == Err::<u64, _>(TimeError::BeforeUnixEpoch),
{
    match elapsed {
        Ok(duration) => Ok(duration.as_secs()),
        Err(_) => Err(TimeError::BeforeUnixEpoch),
    }
}

} // verus!
