//! Instants in UTC, as plain values, and what a listing shows of them: the start
//! time in words and the whole seconds elapsed since.
use vstd::prelude::*;

verus! {

/// An instant in UTC: whole seconds since 1970-01-01 00:00:00 UTC, and the
/// nanoseconds within that second (what chrono's `timestamp` and
/// `timestamp_subsec_nanos` give).
#[derive(Clone, Copy)]
pub struct UtcInstant {
    /// Seconds since the Unix epoch.
    pub secs: i64,
    /// Nanoseconds within the second.
    pub nanos: u32,
}

/// An instant within 10^12 seconds of the epoch (some 31,700 years) and not
/// inside a leap second: chrono represents every such instant, and the clock only
/// gives such instants.
pub open spec fn is_ordinary(t: UtcInstant) -> bool {
    -1_000_000_000_000 <= t.secs && t.secs <= 1_000_000_000_000 && t.nanos < 1_000_000_000
}

/// Nanoseconds since the epoch.
pub open spec fn nanos_since_epoch(t: UtcInstant) -> int {
    t.secs * 1_000_000_000 + t.nanos
}

/// The whole seconds from `from` to `to`, the fraction dropped towards zero.
pub open spec fn whole_seconds_between(from: UtcInstant, to: UtcInstant) -> int {
    let d = nanos_since_epoch(to) - nanos_since_epoch(from);
    if d >= 0 {
        d / 1_000_000_000
    } else {
        -((-d) / 1_000_000_000)
    }
}

/// Law: elapsed whole seconds are the difference rounded towards zero: reversing
/// the instants negates them, an instant is 0 seconds from itself, and going
/// forward they are the whole seconds that fit in the elapsed time.
pub proof fn law_whole_seconds(from: UtcInstant, to: UtcInstant)
    ensures
        whole_seconds_between(from, to) == -whole_seconds_between(to, from),
        whole_seconds_between(from, from) == 0,
        nanos_since_epoch(from) <= nanos_since_epoch(to) ==> 0 <= whole_seconds_between(from, to)
            && whole_seconds_between(from, to) * 1_000_000_000 <= nanos_since_epoch(to)
            - nanos_since_epoch(from) < (whole_seconds_between(from, to) + 1) * 1_000_000_000,
{
}

/// What chrono writes for the UTC instant `secs`, `nanos` in the format
/// `%Y-%m-%d %H:%M:%S UTC`.
pub uninterp spec fn utc_time_text(secs: i64, nanos: u32) -> Seq<char>;

/// Whether `t` is an ordinary instant.
pub fn ordinary(t: UtcInstant) -> (b: bool)
    ensures
        b == is_ordinary(t),
{
    -1_000_000_000_000i64 <= t.secs && t.secs <= 1_000_000_000_000i64 && t.nanos < 1_000_000_000
}

/// Calls chrono's `DateTime::<Utc>::from_timestamp(secs, nanos)`, which gives the
/// instant for every ordinary `secs`, `nanos`, and formats it with
/// `format("%Y-%m-%d %H:%M:%S UTC")`; the text is named `utc_time_text`.
#[verifier::external_body]
fn format_utc_time(t: UtcInstant) -> (text: String)
    requires
        is_ordinary(t),
    ensures
        text@ == utc_time_text(t.secs, t.nanos),
{
    let instant = chrono::DateTime::<chrono::Utc>::from_timestamp(t.secs, t.nanos).expect(
        "an ordinary instant",
    );
    instant.format("%Y-%m-%d %H:%M:%S UTC").to_string()
}

/// Calls chrono's `DateTime::<Utc>::from_timestamp` for both instants, subtracts
/// them (`to - from`, a `TimeDelta`) and takes `num_seconds`: for instants that
/// are not inside a leap second, the whole seconds between them, rounded towards
/// zero.
#[verifier::external_body]
fn chrono_seconds_between(from: UtcInstant, to: UtcInstant) -> (s: i64)
    requires
        is_ordinary(from),
        is_ordinary(to),
    ensures
        s == whole_seconds_between(from, to),
{
    let start = chrono::DateTime::<chrono::Utc>::from_timestamp(from.secs, from.nanos).expect(
        "an ordinary instant",
    );
    let end = chrono::DateTime::<chrono::Utc>::from_timestamp(to.secs, to.nanos).expect(
        "an ordinary instant",
    );
    (end - start).num_seconds()
}

/// The start time of a process as a listing shows it.
pub fn start_time_text(start: UtcInstant) -> (text: String)
    requires
        is_ordinary(start),
    ensures
        text@ == utc_time_text(start.secs, start.nanos),
{
    format_utc_time(start)
}

/// The whole seconds a process started at `start` has been up at `now`.
pub fn uptime_seconds(start: UtcInstant, now: UtcInstant) -> (s: i64)
    requires
        is_ordinary(start),
        is_ordinary(now),
    ensures
        s == whole_seconds_between(start, now),
{
    chrono_seconds_between(start, now)
}

} // verus!
