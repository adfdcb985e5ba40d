//! Wall-clock readings and their rendering. A reading depends on the time of
//! the call, so nothing is promised of its value; rendering a reading is a
//! function of the reading alone.
use vstd::prelude::*;
use crate::paths::separator_free;

verus! {

#[verifier::external_type_specification]
#[verifier::external_body]
pub struct ExSystemTime(std::time::SystemTime);

/// Calls `std::time::SystemTime::now`; the reading depends on the time of the call.
#[verifier::external_body]
fn system_now() -> (r: std::time::SystemTime) {
    std::time::SystemTime::now()
}

/// Calls `SystemTime::duration_since(UNIX_EPOCH)`: the time elapsed since 1970,
/// or `None` when the reading is earlier.
#[verifier::external_body]
fn since_unix_epoch(now: &std::time::SystemTime) -> (r: Option<std::time::Duration>) {
    now.duration_since(std::time::UNIX_EPOCH).ok()
}

/// Calls `Duration::as_secs`: the whole seconds of a duration.
#[verifier::external_body]
fn whole_seconds(elapsed: &std::time::Duration) -> (r: u64) {
    elapsed.as_secs()
}

/// Calls `Duration::subsec_nanos`, which the documentation bounds below one second.
#[verifier::external_body]
fn subsecond_nanos(elapsed: &std::time::Duration) -> (r: u32)
    ensures
        r < 1_000_000_000,
{
    elapsed.subsec_nanos()
}

/// The whole seconds and nanoseconds since 1970, or `None` when the system
/// clock reads before it.
fn system_time_since_epoch() -> (r: Option<(u64, u32)>)
    ensures
        r matches Some(t) ==> t.1 < 1_000_000_000,
{
    let now = system_now();
    match since_unix_epoch(&now) {
        Some(elapsed) => Some((whole_seconds(&elapsed), subsecond_nanos(&elapsed))),
        None => None,
    }
}

/// `chrono::DateTime::<Utc>::from_timestamp(secs, nanos)` rendered by `to_rfc3339`.
pub uninterp spec fn rfc3339_text(secs: i64, nanos: u32) -> Option<Seq<char>>;

/// `chrono::DateTime::<Utc>::from_timestamp(secs, nanos)` rendered with
/// `format("%Y%m%dT%H%M%S%.6fZ")`.
pub uninterp spec fn snapshot_stamp_text(secs: i64, nanos: u32) -> Option<Seq<char>>;

/// Calls `chrono::DateTime::from_timestamp` and renders the instant with
/// `to_rfc3339`; `None` where chrono refuses the timestamp as out of range.
/// Claims the result is `rfc3339_text` of the arguments.
#[verifier::external_body]
pub(crate) fn rfc3339_at(secs: i64, nanos: u32) -> (r: Option<String>)
    ensures
        match r {
            Some(s) => rfc3339_text(secs, nanos) == Some(s@),
            None => rfc3339_text(secs, nanos) is None,
        },
{
    chrono::DateTime::from_timestamp(secs, nanos).map(|instant| instant.to_rfc3339())
}

/// Calls `chrono::DateTime::from_timestamp` and renders the instant with the
/// snapshot stamp format `%Y%m%dT%H%M%S%.6fZ`; `None` where chrono refuses the
/// timestamp. Claims the result is `snapshot_stamp_text` of the arguments, and
/// that the stamp, made of signed digits, `T`, `.` and `Z`, holds no `/`, `\`
/// or `:`.
#[verifier::external_body]
pub(crate) fn snapshot_stamp_at(secs: i64, nanos: u32) -> (r: Option<String>)
    ensures
        r matches Some(s) ==> separator_free(s@),
        match r {
            Some(s) => snapshot_stamp_text(secs, nanos) == Some(s@),
            None => snapshot_stamp_text(secs, nanos) is None,
        },
{
    chrono::DateTime::from_timestamp(secs, nanos).map(|instant| instant.format("%Y%m%dT%H%M%S%.6fZ").to_string())
}

/// A reading of the system clock: whole seconds and nanoseconds since the Unix epoch.
#[derive(Debug, Clone, Copy, PartialEq, Eq, Structural)]
pub struct ClockReading {
    pub secs: i64,
    pub nanos: u32,
}

/// The largest second count whose milliseconds fit in an `i64`.
pub const MAX_READING_SECS: i64 = 9_223_372_036_854_774;

/// The reading in milliseconds since the epoch.
pub open spec fn reading_millis(reading: ClockReading) -> int {
    reading.secs * 1000 + reading.nanos / 1_000_000
}

/// The clock's message when it cannot give a reading.
pub open spec fn clock_unavailable() -> Seq<char> {
    "system clock reads before the Unix epoch or beyond the supported range"@
}

/// The current time, or `None` when the system clock reads before 1970 or too
/// far ahead for millisecond timestamps.
pub fn clock_reading() -> (r: Option<ClockReading>)
    ensures
        r matches Some(c) ==> 0 <= c.secs <= MAX_READING_SECS && c.nanos < 1_000_000_000,
{
    match system_time_since_epoch() {
        Some((secs, nanos)) => {
            if secs <= 9_223_372_036_854_774u64 {
                Some(ClockReading { secs: secs as i64, nanos })
            } else {
                None
            }
        },
        None => None,
    }
}

/// The reading in milliseconds since the epoch.
pub fn millis_of(reading: ClockReading) -> (r: i64)
    requires
        0 <= reading.secs <= MAX_READING_SECS,
        reading.nanos < 1_000_000_000,
    ensures
        r == reading_millis(reading),
{
    reading.secs * 1000 + (reading.nanos / 1_000_000) as i64
}

} // verus!
