//! Rendering a span of time as a time of day under a strftime pattern.

use vstd::prelude::*;
use crate::time::Duration;

verus! {

/// The text that chrono writes for the time of day `hours:minutes:seconds`
/// under the strftime pattern `pattern`, or `None` where chrono rejects the
/// pattern (an unknown specifier, or one that asks for a date).
pub uninterp spec fn time_of_day_text(hours: u32, minutes: u32, seconds: u32, pattern: Seq<char>) -> Option<Seq<char>>;

/// Calls `chrono::NaiveTime::from_hms_opt`, then `NaiveTime::format` and
/// `DelayedFormat::write_to` into an empty string. Not proved: that the
/// outcome is the one named by `time_of_day_text`, the written text where
/// chrono reports success and `None` where it reports a formatting error.
#[verifier::external_body]
fn format_time_of_day(hours: u32, minutes: u32, seconds: u32, pattern: &str) -> (r: Option<String>)
    requires
        hours < 24,
        minutes < 60,
        seconds < 60,
    ensures
        match time_of_day_text(hours, minutes, seconds, pattern@) {
            Some(text) => r matches Some(s) && s@ == text,
            None => r is None,
        },
{
    let time = chrono::NaiveTime::from_hms_opt(hours, minutes, seconds)?;
    let mut text = String::new();
    match time.format(pattern).write_to(&mut text) {
        Ok(()) => Some(text),
        Err(_) => None,
    }
}

/// The text for a span of `nanos` nanoseconds under `pattern`: its whole
/// seconds read as a time of day. There is none for a span of a day or more.
pub open spec fn duration_text(nanos: nat, pattern: Seq<char>) -> Option<Seq<char>> {
    let secs = nanos / 1_000_000_000;
    if secs >= 86_400 {
        None
    } else {
        time_of_day_text((secs / 3600) as u32, ((secs % 3600) / 60) as u32, (secs % 60) as u32, pattern)
    }
}

/// Renders `duration` as hours, minutes and seconds under the strftime
/// pattern `fmt`; fractions of a second are dropped. `None` for a span of a
/// day or more, and where the pattern is rejected.
pub fn duration_fmt(duration: Duration, fmt: &str) -> (r: Option<String>)
    ensures
        match duration_text(duration@, fmt@) {
            Some(text) => r matches Some(s) && s@ == text,
            None => r is None,
        },
{
    let secs: u128 = duration.as_secs();
    if secs >= 86_400 {
        return None;
    }
    let seconds: u32 = (secs % 60) as u32;
    let minutes: u32 = ((secs % 3600) / 60) as u32;
    let hours: u32 = (secs / 3600) as u32;
    format_time_of_day(hours, minutes, seconds, fmt)
}

} // verus!
