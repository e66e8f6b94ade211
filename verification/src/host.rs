//! What the host environment reports: the user's home directory and
//! the current time. Both depend on the machine, so their contracts
//! promise nothing about the values.

use vstd::prelude::*;

verus! {

/// Relies on `dirs::home_dir`: the home directory of the current user,
/// if the platform reports one that is valid Unicode. The result
/// depends on the environment, so nothing is promised of it.
#[verifier::external_body]
pub fn home_directory() -> Option<String> {
    dirs::home_dir().and_then(|p| p.to_str().map(|s| s.to_string()))
}

/// Relies on `chrono::Utc::now` and `DateTime::timestamp_millis`: the
/// current time as non-leap milliseconds since the Unix epoch. The
/// clock only moves after the epoch, so the result is not negative;
/// nothing more can be promised of a reading of the clock.
#[verifier::external_body]
pub fn current_time_millis() -> (t: i64)
    ensures
        t >= 0,
{
    chrono::Utc::now().timestamp_millis()
}

} // verus!
