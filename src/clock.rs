//! Points in time as whole seconds since the Unix epoch, and the calls into
//! chrono that read the clock and render a point in time.
use vstd::prelude::*;

use crate::text::is_digit;

verus! {

/// Seconds in one day.
pub const SECONDS_PER_DAY: i64 = 86400;

/// The start of the historical window that generated timestamps fall in:
/// 2020-01-01T00:00:00Z.
pub const WINDOW_START: i64 = 1577836800;

/// The last second that renders with a four-digit year:
/// 9999-12-31T23:59:59Z.
pub const LATEST_SECOND: i64 = 253402300799;

/// A point in time, in whole seconds since 1970-01-01T00:00:00Z.
#[derive(Clone, Copy, Debug, PartialEq, Eq)]
pub struct Timestamp {
    pub seconds: i64,
}

/// Whether `t` lies in the window that starts at `WINDOW_START` and ends
/// before `now`.
pub open spec fn in_window(t: Timestamp, now: Timestamp) -> bool {
    WINDOW_START <= t.seconds < now.seconds
}

/// What chrono writes for a point in time given in seconds.
pub uninterp spec fn rfc3339_text(seconds: int) -> Seq<char>;

/// A character that chrono's RFC 3339 rendering of a UTC time writes.
pub open spec fn rfc3339_char(c: char) -> bool {
    is_digit(c) || c == '-' || c == 'T' || c == ':' || c == '+'
}

/// The shape of a whole-second UTC time with a four-digit year, rendered
/// as `YYYY-MM-DDTHH:MM:SS+00:00`.
pub open spec fn rfc3339_shape(s: Seq<char>) -> bool {
    s.len() == 25 && forall|i: int| 0 <= i < s.len() ==> rfc3339_char(#[trigger] s[i])
}

/// Relies on chrono's `DateTime::from_timestamp` and `DateTime::to_rfc3339`:
/// the text depends on the number of seconds alone, and for a year of four
/// digits and no fraction of a second it is the date, `T`, the time and the
/// offset `+00:00`, in digits and separators.
#[verifier::external_body]
pub(crate) fn render_rfc3339(seconds: i64) -> (r: String)
    requires
        0 <= seconds <= LATEST_SECOND,
    ensures
        r@ == rfc3339_text(seconds as int),
        rfc3339_shape(r@),
{
    chrono::DateTime::from_timestamp(seconds, 0).unwrap().to_rfc3339()
}

/// Relies on chrono's `Utc::now` and `DateTime::timestamp`: the current
/// time, which may be anything.
#[verifier::external_body]
pub(crate) fn unix_now() -> (r: i64) {
    chrono::Utc::now().timestamp()
}

} // verus!
