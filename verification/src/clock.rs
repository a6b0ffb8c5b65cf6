//! The wall clock, read in whole seconds.

use vstd::prelude::*;

verus! {

/// `std::time::SystemTime`, a reading of the clock: carried through, never
/// looked into.
#[verifier::external_type_specification]
#[verifier::external_body]
pub struct ExSystemTime(std::time::SystemTime);

/// `std::time::SystemTimeError`, the error of a reading that lies before
/// the time it is measured from: never looked into.
#[verifier::external_type_specification]
#[verifier::external_body]
pub struct ExSystemTimeError(std::time::SystemTimeError);

/// `std::time::SystemTime::now`: the reading of the system clock.
/// Nothing is claimed of the reading.
#[verifier::external_body]
fn system_now() -> std::time::SystemTime {
    std::time::SystemTime::now()
}

/// `std::time::SystemTime::duration_since` with `UNIX_EPOCH` as the earlier
/// time: the time elapsed since the epoch, or an error when the reading
/// lies before it. Nothing is claimed of which it is.
#[verifier::external_body]
fn since_epoch(reading: &std::time::SystemTime) -> Result<
    std::time::Duration,
    std::time::SystemTimeError,
> {
    reading.duration_since(std::time::UNIX_EPOCH)
}

/// The whole seconds of a duration, as `std::time::Duration::as_secs`
/// gives them.
pub uninterp spec fn duration_secs(elapsed: std::time::Duration) -> u64;

/// `std::time::Duration::as_secs`: the whole seconds of a duration.
/// The call reads its argument and nothing else, so its result has a name;
/// nothing more is claimed of it.
#[verifier::external_body]
fn whole_seconds(elapsed: &std::time::Duration) -> (secs: u64)
    ensures
        secs == duration_secs(*elapsed),
{
    elapsed.as_secs()
}

/// What a measurement from the epoch comes to in whole seconds: the whole
/// seconds of the time elapsed, and nothing when the reading lay before
/// the epoch.
pub open spec fn elapsed_secs(
    elapsed: Result<std::time::Duration, std::time::SystemTimeError>,
) -> Option<u64> {
    match elapsed {
        Ok(time) => Some(duration_secs(time)),
        Err(_) => None,
    }
}

/// The whole seconds of a measurement from the epoch: `Some` exactly when
/// the measurement succeeded.
pub fn secs_elapsed(elapsed: Result<std::time::Duration, std::time::SystemTimeError>) -> (secs:
    Option<u64>)
    ensures
        secs == elapsed_secs(elapsed),
{
    match elapsed {
        Ok(time) => Some(whole_seconds(&time)),
        Err(_) => None,
    }
}

/// The whole seconds elapsed since the Unix epoch, or `None` when the
/// system clock reads a time before it: what `secs_elapsed` makes of one
/// measurement from the epoch to the clock's reading. Which measurement
/// that is depends on the clock, and is not stated.
pub fn now_secs() -> (secs: Option<u64>)
    ensures
        exists|elapsed: Result<std::time::Duration, std::time::SystemTimeError>|
            secs == #[trigger] elapsed_secs(elapsed),
{
    let reading = system_now();
    let elapsed = since_epoch(&reading);
    let secs = secs_elapsed(elapsed);
    assert(secs == elapsed_secs(elapsed));
    secs
}

} // verus!
