//! Wall-clock time in Unix epoch milliseconds.
use vstd::prelude::*;

use std::time::{Duration, SystemTime};

verus! {

/// A reading of the system clock.
#[verifier::external_type_specification]
#[verifier::external_body]
pub struct ExSystemTime(std::time::SystemTime);

/// `SystemTime::now`: the current reading of the system clock. It depends on when the
/// call is made, so nothing is stated about it.
#[verifier::external_body]
fn clock_now() -> (r: SystemTime) {
    SystemTime::now()
}

/// `SystemTime::duration_since(UNIX_EPOCH)`: the time elapsed since the Unix epoch, or
/// `None` when the reading lies before the epoch. The reading is opaque here, so
/// nothing is stated about which of the two comes back.
#[verifier::external_body]
fn since_unix_epoch(t: &SystemTime) -> (r: Option<Duration>) {
    t.duration_since(std::time::UNIX_EPOCH).ok()
}

/// `Duration::as_millis`: the whole milliseconds of a duration. A duration is opaque
/// here, so nothing is stated about the count.
#[verifier::external_body]
fn whole_millis(d: &Duration) -> (r: u128) {
    d.as_millis()
}

/// `chrono::TimeZone::timestamp_millis_opt` on `chrono::Local`, then
/// `FixedOffset::local_minus_utc`: the seconds by which the local time zone is ahead of
/// UTC at the instant `epoch_ms`, or `None` when chrono cannot place that instant. chrono
/// builds every offset through `FixedOffset::east_opt`, which keeps it within a day
/// either way; which offset comes back depends on the machine's time zone, so nothing
/// more is stated. (chrono's Unix zone lookup panics only on zone data it cannot use.)
#[verifier::external_body]
fn local_offset_secs_at(epoch_ms: i64) -> (r: Option<i32>)
    ensures
        r matches Some(secs) ==> -86400 < secs < 86400,
{
    match chrono::TimeZone::timestamp_millis_opt(&chrono::Local, epoch_ms) {
        chrono::LocalResult::Single(dt) => Some(dt.offset().local_minus_utc()),
        chrono::LocalResult::Ambiguous(_, _) => None,
        chrono::LocalResult::None => None,
    }
}

/// The milliseconds by which the local time zone is ahead of UTC at `epoch_ms`, when the
/// zone can say.
pub fn local_utc_offset_ms_at(epoch_ms: i64) -> (r: Option<i64>)
    ensures
        r matches Some(ms) ==> -86400000 < ms < 86400000,
{
    match local_offset_secs_at(epoch_ms) {
        Some(secs) => Some((secs as i64) * 1000),
        None => None,
    }
}

/// The current time in Unix epoch milliseconds: `1` when the clock reads a time
/// before the epoch, `i64::MAX` when the reading does not fit an `i64`.
pub fn current_time_millis() -> (r: i64)
    ensures
        r >= 0,
{
    let now = clock_now();
    match since_unix_epoch(&now) {
        None => 1,
        Some(d) => {
            let ms = whole_millis(&d);
            if ms <= 9223372036854775807u128 {
                ms as i64
            } else {
                i64::MAX
            }
        },
    }
}

} // verus!
