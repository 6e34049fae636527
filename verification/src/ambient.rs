//! What the library takes from its surroundings: fresh identifiers and the
//! time of day. Neither is a function of any argument, so the contracts of
//! the calls state only what holds of each value that can come back.

use vstd::prelude::*;

verus! {

/// A lower-case hexadecimal digit.
pub open spec fn is_lower_hex(c: char) -> bool {
    ('0' <= c && c <= '9') || ('a' <= c && c <= 'f')
}

/// The textual form of an identifier: 36 characters, hyphens at the four
/// fixed places, lower-case hexadecimal digits everywhere else.
pub open spec fn is_hyphenated_id(text: Seq<char>) -> bool {
    &&& text.len() == 36
    &&& forall|i: int|
        0 <= i < 36 ==> if i == 8 || i == 13 || i == 18 || i == 23 {
            #[trigger] text[i] == '-'
        } else {
            is_lower_hex(text[i])
        }
}

/// Trusted: wraps `uuid::Uuid::new_v4` and the `Display` of the identifier it
/// returns. The identifier is random, so two calls differ; each is printed
/// in the hyphenated lower-case form.
#[verifier::external_body]
pub(crate) fn fresh_id() -> (id: String)
    ensures
        is_hyphenated_id(id@),
{
    uuid::Uuid::new_v4().to_string()
}

/// Trusted: the standard library's `SystemTime`, a reading of the system
/// clock. Nothing is known of what a value holds.
#[verifier::external_type_specification]
#[verifier::external_body]
pub struct ExSystemTime(std::time::SystemTime);

/// Trusted: the standard library's `SystemTimeError`, the error of a clock
/// that reads before the instant it is compared with. Nothing is known of
/// what a value holds.
#[verifier::external_type_specification]
#[verifier::external_body]
pub struct ExSystemTimeError(std::time::SystemTimeError);

/// Trusted: `SystemTime::now` reads the system clock. Nothing is promised of
/// the reading.
pub assume_specification[ std::time::SystemTime::now ]() -> (now: std::time::SystemTime);

/// Trusted: wraps `SystemTime::duration_since` with `std::time::UNIX_EPOCH`
/// as the earlier instant. The standard library gives the time that has
/// passed since then, or an error where `time` lies before it. Nothing is
/// promised of either.
#[verifier::external_body]
fn elapsed_since_epoch(time: &std::time::SystemTime) -> (elapsed: Result<
    std::time::Duration,
    std::time::SystemTimeError,
>) {
    time.duration_since(std::time::UNIX_EPOCH)
}

/// Trusted: `Duration::as_secs` gives the whole seconds of a duration.
/// Nothing is promised of their number.
pub assume_specification[ std::time::Duration::as_secs ](duration: &std::time::Duration) -> (seconds:
    u64);

/// Reads the system clock: the current time as whole seconds since the Unix
/// epoch, and nothing where the clock reads before the epoch. Nothing is
/// known of the reading.
pub(crate) fn since_epoch() -> (reading: Option<u64>) {
    let now = std::time::SystemTime::now();
    match elapsed_since_epoch(&now) {
        Ok(elapsed) => Some(elapsed.as_secs()),
        Err(_) => None,
    }
}

/// The seconds that a reading of the clock stands for where a time has to be
/// given in any case: those of the reading, and 0 where the clock read
/// before the Unix epoch.
pub open spec fn seconds_of(reading: Option<u64>) -> u64 {
    match reading {
        Some(seconds) => seconds,
        None => 0,
    }
}

/// The timestamp that a reading of the clock stands for in the ledger: the
/// seconds of [`seconds_of`], held at the last timestamp there is.
pub open spec fn timestamp_of(reading: Option<u64>) -> i64 {
    if seconds_of(reading) > i64::MAX {
        i64::MAX
    } else {
        seconds_of(reading) as i64
    }
}

/// Turns a reading of the clock into seconds since the Unix epoch.
pub fn seconds_or_zero(reading: Option<u64>) -> (seconds: u64)
    ensures
        seconds == seconds_of(reading),
{
    match reading {
        Some(seconds) => seconds,
        None => 0,
    }
}

/// Turns a reading of the clock into a timestamp of the ledger.
pub fn timestamp_or_zero(reading: Option<u64>) -> (timestamp: i64)
    ensures
        timestamp == timestamp_of(reading),
{
    let seconds = seconds_or_zero(reading);
    if seconds > 0x7fff_ffff_ffff_ffff {
        i64::MAX
    } else {
        seconds as i64
    }
}

} // verus!
