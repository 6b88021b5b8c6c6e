//! Readings of the wall clock and of a monotonic clock.

use vstd::prelude::*;

verus! {

#[verifier::external_type_specification]
#[verifier::external_body]
pub struct ExInstant(std::time::Instant);

/// A wall-clock time label `HH:MM:SS.mmm`: two-digit hours, minutes and
/// seconds and three digits of milliseconds.
pub open spec fn is_clock_label(s: Seq<char>) -> bool {
    &&& s.len() == 12
    &&& s[2] == ':'
    &&& s[5] == ':'
    &&& s[8] == '.'
    &&& forall|i: int| 0 <= i < 12 && i != 2 && i != 5 && i != 8 ==> '0' <= #[trigger] s[i] <= '9'
}

/// One reading of the clocks, taken when an event is handled.
#[derive(Clone, Debug)]
pub struct Clock {
    /// Local wall-clock time as `HH:MM:SS.mmm`.
    pub label: String,
    /// Nanoseconds since the Unix epoch, or 0 where that does not fit an `i64`.
    pub utc_nanos: i64,
    /// Milliseconds since the Unix epoch.
    pub utc_millis: i64,
    /// Nanoseconds of a monotonic clock.
    pub mono_ns: u64,
}

/// `std::time::Instant::now`: a reading of the monotonic clock. Nothing is
/// claimed of it.
#[verifier::external_body]
pub(crate) fn instant_now() -> std::time::Instant {
    std::time::Instant::now()
}

/// `Instant::elapsed`: the time since `start`. Depends on the time of the
/// call; nothing is claimed of it.
#[verifier::external_body]
fn instant_elapsed(start: &std::time::Instant) -> core::time::Duration {
    start.elapsed()
}

/// `Duration::as_nanos`: the whole nanoseconds of a duration. Nothing is
/// claimed of it.
#[verifier::external_body]
fn duration_nanos(d: &core::time::Duration) -> u128 {
    d.as_nanos()
}

/// `chrono::Local::now()` formatted with `%H:%M:%S%.3f` and written out.
/// The time read is not stated; the shape of the text is, as chrono
/// documents each specifier (zero-padded two-digit fields and a fixed
/// three-digit fraction).
#[verifier::external_body]
fn local_clock_label() -> (r: String)
    ensures
        is_clock_label(r@),
{
    chrono::Local::now().format("%H:%M:%S%.3f").to_string()
}

/// One reading of `chrono::Utc::now()`, as `timestamp_nanos_opt()` and
/// `timestamp_millis()`. Depends on the time of the call; nothing is
/// claimed of it.
#[verifier::external_body]
fn utc_timestamps() -> (Option<i64>, i64) {
    let now = chrono::Utc::now();
    (now.timestamp_nanos_opt(), now.timestamp_millis())
}

/// The local wall-clock time as `HH:MM:SS.mmm`.
pub fn now_label() -> (r: String)
    ensures
        is_clock_label(r@),
{
    local_clock_label()
}

/// Reads the clocks; `start` anchors the monotonic one.
pub fn read_clock(start: &std::time::Instant) -> (c: Clock)
    ensures
        is_clock_label(c.label@),
{
    let label: String = local_clock_label();
    let (nanos, utc_millis): (Option<i64>, i64) = utc_timestamps();
    let utc_nanos: i64 = match nanos {
        Some(n) => n,
        None => 0,
    };
    let ns: u128 = duration_nanos(&instant_elapsed(start));
    let mono_ns: u64 = if ns > 0xFFFF_FFFF_FFFF_FFFFu128 { 0xFFFF_FFFF_FFFF_FFFFu64 } else { ns as u64 };
    Clock { label, utc_nanos, utc_millis, mono_ns }
}

} // verus!
