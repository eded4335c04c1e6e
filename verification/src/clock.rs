//! The clock and the calendar, which `chrono` keeps.

use vstd::prelude::*;

verus! {

/// The pattern by which a listing shows a time: date, hour and minute.
pub const MINUTE_PATTERN: &'static str = "%Y-%m-%d %H:%M";

/// The date and time in UTC of the moment `secs` seconds after the Unix
/// epoch, as `chrono` writes it by `pattern`; `None` where `chrono` cannot
/// represent the moment.
pub uninterp spec fn utc_text(secs: int, pattern: Seq<char>) -> Option<Seq<char>>;

/// `chrono::DateTime::from_timestamp` with no nanoseconds, then
/// `DateTime::format` and `to_string` on what it gave. The first returns
/// `None` for a number of seconds out of its range; the result is a function
/// of the seconds and the pattern, which the contract names. The pattern is
/// held to `MINUTE_PATTERN`: formatting by a pattern that `chrono` cannot
/// read would panic.
#[verifier::external_body]
pub(crate) fn format_utc(secs: i64, pattern: &str) -> (r: Option<String>)
    requires
        pattern@ == MINUTE_PATTERN@,
    ensures
        match r {
            Some(text) => utc_text(secs as int, pattern@) == Some(text@),
            None => utc_text(secs as int, pattern@) is None,
        },
{
    match chrono::DateTime::from_timestamp(secs, 0) {
        Some(time) => Some(time.format(pattern).to_string()),
        None => None,
    }
}

/// `chrono::Utc::now`, then `DateTime::timestamp`: the seconds since the Unix
/// epoch by the system clock. Nothing is claimed of the value.
#[verifier::external_body]
pub(crate) fn unix_now() -> i64 {
    chrono::Utc::now().timestamp()
}

} // verus!
