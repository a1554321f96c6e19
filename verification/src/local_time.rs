//! Unix seconds as dates and times of the machine's time zone.

use chrono::{FixedOffset, Local, TimeZone};
use vstd::prelude::*;

use crate::text::{self, decimal_text, joined};

verus! {

/// The last Unix second that has a date: the end of the year 262142.
pub const LAST_DATED_SECOND: u64 = 8_210_266_876_799;

/// Whether a character is a decimal digit.
pub open spec fn is_digit(c: char) -> bool {
    '0' <= c <= '9'
}

/// Whether a text looks like a date and time: a year, then `-MM-DD HH:MM:SS` in digits.
pub open spec fn looks_like_moment(moment: Seq<char>) -> bool {
    let year = moment.len() - 15;
    &&& year >= 4
    &&& moment[year] == '-' && moment[year + 3] == '-'
    &&& moment[year + 6] == ' '
    &&& moment[year + 9] == ':' && moment[year + 12] == ':'
    &&& is_digit(moment[year + 1]) && is_digit(moment[year + 2])
    &&& is_digit(moment[year + 4]) && is_digit(moment[year + 5])
    &&& is_digit(moment[year + 7]) && is_digit(moment[year + 8])
    &&& is_digit(moment[year + 10]) && is_digit(moment[year + 11])
    &&& is_digit(moment[year + 13]) && is_digit(moment[year + 14])
}

/// The second as such, where it has no date.
pub open spec fn undated_text(seconds: u64) -> Seq<char> {
    "Unix "@ + text::decimal(seconds as nat)
}

/// How a date and time is written.
pub const MOMENT_PATTERN: &'static str = "%Y-%m-%d %H:%M:%S";

/// The date and time of a Unix second in a zone that is `offset` seconds ahead of UTC, written as
/// `pattern` says.
pub uninterp spec fn moment_text(seconds: i64, offset: i32, pattern: Seq<char>) -> Seq<char>;

/// Whether a zone can be this many seconds ahead of UTC: less than a day either way.
pub open spec fn is_zone_offset(offset: i32) -> bool {
    -86_400 < offset < 86_400
}

/// Calls `Local.timestamp_opt`, for how many seconds the machine's zone is ahead of UTC then.
///
/// Claimed: there is an answer up to the last second that has a date and none after it, and it is
/// less than a day either way. Which it is depends on the zone of the machine, so nothing more is
/// said of it. A zone a whole day or more off UTC, which the call does not take, is out of the
/// question.
#[verifier::external_body]
fn local_offset(seconds: i64) -> (offset: Option<i32>)
    requires
        seconds >= 0,
    ensures
        offset is Some == (seconds <= LAST_DATED_SECOND),
        offset matches Some(ahead) ==> is_zone_offset(ahead),
{
    Local
        .timestamp_opt(seconds, 0)
        .single()
        .map(|moment| moment.offset().local_minus_utc())
}

/// Calls `FixedOffset::timestamp_opt` for a zone that is `offset` seconds ahead of UTC, and formats
/// the moment by the pattern of this library. (A pattern that is not valid cannot be formatted.)
///
/// Claimed: for a second that has a date and an offset of less than a day there is a text, which
/// depends on the two and the pattern alone and looks as the pattern says.
#[verifier::external_body]
fn moment_at(seconds: i64, offset: i32, pattern: &str) -> (moment: Option<String>)
    requires
        0 <= seconds <= LAST_DATED_SECOND,
        is_zone_offset(offset),
        pattern@ == MOMENT_PATTERN@,
    ensures
        moment is Some,
        moment matches Some(text) ==> text@ == moment_text(seconds, offset, pattern@),
        moment matches Some(text) ==> looks_like_moment(text@),
{
    FixedOffset::east_opt(offset)?
        .timestamp_opt(seconds, 0)
        .single()
        .map(|moment| moment.format(pattern).to_string())
}

/// Words a Unix second, given its date and time where it has one.
pub fn moment_or_second(seconds: u64, moment: Option<String>) -> (shown: String)
    ensures
        shown@ == match moment {
            Some(text) => text@,
            None => undated_text(seconds),
        },
{
    match moment {
        Some(text) => text,
        None => {
            let digits = decimal_text(seconds);
            joined("Unix ", digits.as_str())
        },
    }
}

/// What a Unix second is shown as in a zone that is `offset` seconds ahead of UTC.
pub open spec fn shown_in_zone(seconds: u64, offset: i32) -> Seq<char> {
    if seconds <= LAST_DATED_SECOND {
        moment_text(seconds as i64, offset, MOMENT_PATTERN@)
    } else {
        undated_text(seconds)
    }
}

/// Shows a Unix second as a date and time of a zone that is `offset` seconds ahead of UTC, or as
/// such where it has no date.
pub fn format_in_zone(seconds: u64, offset: i32) -> (shown: String)
    requires
        is_zone_offset(offset),
    ensures
        shown@ == shown_in_zone(seconds, offset),
        seconds <= LAST_DATED_SECOND ==> looks_like_moment(shown@),
{
    if seconds <= LAST_DATED_SECOND {
        moment_or_second(seconds, moment_at(seconds as i64, offset, MOMENT_PATTERN))
    } else {
        moment_or_second(seconds, None)
    }
}

/// Whether `shown` can be what a Unix second is shown as on a machine: with some offset of its zone.
pub open spec fn shown_possible(seconds: u64, shown: Seq<char>) -> bool {
    exists|offset: i32|
        {
            &&& is_zone_offset(offset)
            &&& shown == #[trigger] shown_in_zone(seconds, offset)
            &&& seconds <= LAST_DATED_SECOND ==> looks_like_moment(shown)
        }
}

/// Shows a Unix second as a date and time of the machine's zone, or as such where it has no date.
pub fn format_unix_second(seconds: u64) -> (shown: String)
    ensures
        shown_possible(seconds, shown@),
        seconds > LAST_DATED_SECOND ==> shown@ == undated_text(seconds),
{
    let ahead: Option<i32> = if seconds <= LAST_DATED_SECOND {
        local_offset(seconds as i64)
    } else {
        None
    };
    // Where there is no date, the zone makes no difference.
    let offset: i32 = match ahead {
        Some(offset) => offset,
        None => 0,
    };
    let shown = format_in_zone(seconds, offset);
    assert(shown@ == shown_in_zone(seconds, offset));
    shown
}

} // verus!
