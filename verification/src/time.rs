//! Durations and the wall clock, in milliseconds since the Unix epoch.

use vstd::prelude::*;

verus! {

/// A span of time: whole seconds plus nanoseconds.
#[derive(Debug, Clone, Copy)]
pub struct Duration {
    /// Whole seconds.
    pub secs: u64,
    /// Further nanoseconds.
    pub nanos: u32,
}

impl Duration {
    /// The whole milliseconds in this span.
    pub open spec fn millis(self) -> int {
        self.secs * 1000 + self.nanos as int / 1_000_000
    }

    /// Returns the total number of whole milliseconds in this span.
    pub fn as_millis(self) -> (millis: u128)
        ensures
            millis == self.millis(),
    {
        self.secs as u128 * 1000 + (self.nanos / 1_000_000) as u128
    }
}

/// The value of type `i64` nearest to `value`.
pub open spec fn clamp_to_i64(value: int) -> i64 {
    if value > i64::MAX {
        i64::MAX
    } else if value < i64::MIN {
        i64::MIN
    } else {
        value as i64
    }
}

/// Returns a count of milliseconds as an `i64`, or `i64::MAX` where it does not fit.
pub fn clamp_millis(millis: u128) -> (clamped: i64)
    ensures
        clamped == clamp_to_i64(millis as int),
        clamped >= 0,
{
    if millis > i64::MAX as u128 {
        i64::MAX
    } else {
        millis as i64
    }
}

/// Returns `left - right`, clamped to the bounds of `i64`.
pub fn saturating_difference(left: i64, right: i64) -> (difference: i64)
    ensures
        difference == clamp_to_i64(left - right),
{
    let exact: i128 = left as i128 - right as i128;
    if exact > i64::MAX as i128 {
        i64::MAX
    } else if exact < i64::MIN as i128 {
        i64::MIN
    } else {
        exact as i64
    }
}

/// Reads the clock through `std::time::SystemTime::elapsed` on the Unix epoch.
///
/// Claims of the time read only what std documents of every span: the
/// nanoseconds beyond the whole seconds are less than a second. The result is
/// `None` where the clock stands before the epoch, which is the only error that
/// `elapsed` reports.
#[verifier::external_body]
fn elapsed_since_epoch() -> (elapsed: Option<Duration>)
    ensures
        elapsed matches Some(span) ==> span.nanos < 1_000_000_000,
{
    match std::time::UNIX_EPOCH.elapsed() {
        Ok(span) => Some(Duration { secs: span.as_secs(), nanos: span.subsec_nanos() }),
        Err(_) => None,
    }
}

/// The Unix time in milliseconds that a clock reading stands for.
pub open spec fn unix_ms_of(elapsed: Option<Duration>) -> i64 {
    match elapsed {
        Some(span) => clamp_to_i64(span.millis()),
        None => 0,
    }
}

/// Returns the Unix time in milliseconds for the time elapsed since the epoch:
/// zero where the clock stands before it, `i64::MAX` where it is too far after it.
pub fn unix_ms(elapsed: Option<Duration>) -> (ms: i64)
    ensures
        ms == unix_ms_of(elapsed),
        ms >= 0,
{
    match elapsed {
        Some(span) => clamp_millis(span.as_millis()),
        None => 0,
    }
}

/// Returns the current Unix time in milliseconds.
pub fn now_ms() -> (ms: i64)
    ensures
        ms >= 0,
{
    unix_ms(elapsed_since_epoch())
}

/// The whole milliseconds of a span are as many as fit into its seconds and
/// nanoseconds, and not one fewer.
pub proof fn milliseconds_are_whole(span: Duration)
    ensures
        0 <= span.millis(),
        span.millis() * 1_000_000 <= span.secs * 1_000_000_000 + span.nanos,
        span.secs * 1_000_000_000 + span.nanos < (span.millis() + 1) * 1_000_000,
{
}

/// Clamping keeps a value that fits and takes any other to the nearer bound; it
/// keeps the order of values.
pub proof fn clamping_is_nearest(value: int, other: int)
    ensures
        -0x8000_0000_0000_0000 <= value <= 0x7fff_ffff_ffff_ffff ==> clamp_to_i64(value) == value,
        value > 0x7fff_ffff_ffff_ffff ==> clamp_to_i64(value) == 0x7fff_ffff_ffff_ffff,
        value < -0x8000_0000_0000_0000 ==> clamp_to_i64(value) == -0x8000_0000_0000_0000,
        value <= other ==> clamp_to_i64(value) <= clamp_to_i64(other),
{
}

/// The Unix time of a clock reading is its whole milliseconds, or the largest
/// time there is; before the epoch it is zero.
pub proof fn unix_time_counts_milliseconds(span: Duration)
    ensures
        unix_ms_of(None) == 0,
        span.secs * 1000 + span.nanos as int / 1_000_000 <= 0x7fff_ffff_ffff_ffff ==> {
            &&& unix_ms_of(Some(span)) * 1_000_000 <= span.secs * 1_000_000_000 + span.nanos
            &&& span.secs * 1_000_000_000 + span.nanos < (unix_ms_of(Some(span)) + 1) * 1_000_000
        },
        span.secs * 1000 + span.nanos as int / 1_000_000 > 0x7fff_ffff_ffff_ffff ==> unix_ms_of(
            Some(span),
        ) == 0x7fff_ffff_ffff_ffff,
{
}

} // verus!
