//! The billing cycle: its dates and how long it is.

use vstd::prelude::*;

use crate::text::{decimal_i64, digit, law_rendered_number_is_read_back, parse_i64, rendered};
use crate::timestamp::{
    at_or_after, formatted_point, law_moving_keeps_spans, law_span_changes_sign, millis_point,
    moved, on_calendar, point, rfc3339_point, seconds_since, truncated_div, Timestamp,
    NANOS_PER_SEC,
};

verus! {

/// The format of a date without fractional seconds.
pub const SECONDS_FORMAT: &'static str = "%Y-%m-%dT%H:%M:%SZ";

/// What a date comes to that is no number: what RFC 3339 makes of it, or else what the format
/// without fractional seconds does.
pub open spec fn first_point(a: Option<(int, int)>, b: Option<(int, int)>) -> Option<(int, int)> {
    match a {
        Some(p) => Some(p),
        None => b,
    }
}

/// The point that a date of Cursor names: milliseconds since the epoch, or a written date.
pub open spec fn cursor_date(s: Seq<char>) -> Option<(int, int)> {
    match decimal_i64(s) {
        Some(millis) => if on_calendar(millis_point(millis as int)) {
            Some(millis_point(millis as int))
        } else {
            None
        },
        None => first_point(rfc3339_point(s), formatted_point(s, SECONDS_FORMAT@)),
    }
}

/// The point that a date of Cursor names: milliseconds since the epoch, or a written date.
pub fn parse_cursor_date(s: &str) -> (res: Option<Timestamp>)
    ensures
        point(res) == cursor_date(s@),
{
    if let Some(milliseconds) = parse_i64(s) {
        return Timestamp::from_millis(milliseconds);
    }
    if let Some(at) = Timestamp::from_rfc3339(s) {
        return Some(at);
    }
    Timestamp::from_format(s, SECONDS_FORMAT)
}

/// How many minutes lie between two points, if both are known and it is at least one: as many
/// as a `u32` holds.
pub open spec fn window_minutes(start: Option<(int, int)>, end: Option<(int, int)>) -> Option<u32> {
    match (start, end) {
        (Some(start), Some(end)) => {
            let minutes = truncated_div(seconds_since(end, start), 60);
            if minutes > u32::MAX {
                Some(u32::MAX)
            } else if minutes > 0 {
                Some(minutes as u32)
            } else {
                None
            }
        },
        _ => None,
    }
}

/// How many minutes a billing cycle lasts, if its dates are known and in order.
pub fn billing_window_minutes(
    billing_start: Option<Timestamp>,
    billing_end: Option<Timestamp>,
) -> (res: Option<u32>)
    ensures
        res == window_minutes(point(billing_start), point(billing_end)),
{
    match (billing_start, billing_end) {
        (Some(start), Some(end)) => {
            let seconds: i64 = end.seconds_from(start);
            if seconds < 60 {
                return None;
            }
            let minutes: i64 = seconds / 60;
            if minutes > u32::MAX as i64 {
                Some(u32::MAX)
            } else {
                Some(minutes as u32)
            }
        },
        _ => None,
    }
}

/// A billing cycle whose end is not after its start has no length.
pub proof fn law_reversed_cycle_has_no_length(start: (int, int), end: (int, int))
    requires
        on_calendar(start),
        on_calendar(end),
        end.0 <= start.0,
    ensures
        window_minutes(Some(start), Some(end)) is None,
{
}

/// A billing cycle that has a length has none the other way round.
pub proof fn law_cycle_has_one_direction(start: (int, int), end: (int, int))
    requires
        window_minutes(Some(start), Some(end)) is Some,
    ensures
        window_minutes(Some(end), Some(start)) is None,
{
    law_span_changes_sign(start, end);
}

/// A later end never makes a billing cycle shorter, where none of the points is in a leap second;
/// and where one is, by no more than a minute.
pub proof fn law_later_end_is_no_shorter(start: (int, int), end: (int, int), later: (int, int))
    requires
        on_calendar(start),
        on_calendar(end),
        on_calendar(later),
        at_or_after(later, end),
    ensures
        start.1 < NANOS_PER_SEC && end.1 < NANOS_PER_SEC && later.1 < NANOS_PER_SEC ==> (
        window_minutes(Some(start), Some(end)) matches Some(m) ==> window_minutes(
            Some(start),
            Some(later),
        ) is Some && window_minutes(Some(start), Some(later))->0 >= m),
        truncated_div(seconds_since(later, start), 60) >= truncated_div(
            seconds_since(end, start),
            60,
        ) - 1,
{
}

/// A billing cycle whose dates are both moved by the same time is as long as before.
pub proof fn law_moved_cycle_is_as_long(
    start: (int, int),
    moved_start: (int, int),
    end: (int, int),
    moved_end: (int, int),
    nanos: int,
)
    requires
        moved(start, moved_start, nanos),
        moved(end, moved_end, nanos),
    ensures
        window_minutes(Some(moved_start), Some(moved_end)) == window_minutes(
            Some(start),
            Some(end),
        ),
{
    law_moving_keeps_spans(end, moved_end, start, moved_start, nanos, 0);
}

/// Milliseconds that the calendar holds, written as a number, are read back as the point that
/// they count to.
pub proof fn law_written_milliseconds_are_read_back(millis: i64)
    requires
        on_calendar(millis_point(millis as int)),
    ensures
        cursor_date(rendered(millis as int)) == Some(millis_point(millis as int)),
{
    law_rendered_number_is_read_back(millis);
}

/// A written date is read as the point that RFC 3339 makes of it: having more than digits after its
/// first character, it is never taken for milliseconds.
pub proof fn law_written_dates_are_read(s: Seq<char>, i: int)
    requires
        1 <= i < s.len(),
        !digit(s[i]),
        rfc3339_point(s) is Some,
    ensures
        decimal_i64(s) is None,
        cursor_date(s) == rfc3339_point(s),
{
    assert(s.skip(1)[i - 1] == s[i]);
}

/// Milliseconds that the calendar holds are read as the point they count to, whatever sign or
/// leading zeros they are written with.
pub proof fn law_milliseconds_are_read(s: Seq<char>, millis: i64)
    requires
        decimal_i64(s) == Some(millis),
        on_calendar(millis_point(millis as int)),
    ensures
        cursor_date(s) matches Some(p) && p.0 * 1000 + p.1 / 1_000_000 == millis,
{
}

/// A cycle that lasts a given number of seconds has as many minutes as fit in them, up to what a
/// `u32` holds, and none where not even one does or a date is not known.
pub proof fn law_minutes_by_seconds(start: (int, int), end: (int, int))
    ensures
        ({
            let seconds = seconds_since(end, start);
            let minutes = window_minutes(Some(start), Some(end));
            &&& minutes is None <==> seconds < 60
            &&& minutes matches Some(m) ==> 1 <= m && 60 * m <= seconds && (seconds < 60 * (m + 1)
                || m == 0xFFFF_FFFF)
        }),
        window_minutes(None, Some(end)) is None,
        window_minutes(Some(start), None) is None,
        window_minutes(None, None) is None,
{
}

/// A date that is a number is a count of milliseconds and nothing else: off the calendar it names
/// no point. Any other is first read by RFC 3339, and only where that fails by the format without
/// fractional seconds.
pub proof fn law_dates_by_form(s: Seq<char>)
    ensures
        decimal_i64(s) matches Some(n) ==> {
            &&& cursor_date(s) is Some <==> on_calendar(millis_point(n as int))
            &&& cursor_date(s) matches Some(p) ==> p == millis_point(n as int)
        },
        decimal_i64(s) is None && rfc3339_point(s) is Some ==> cursor_date(s) == rfc3339_point(s),
        decimal_i64(s) is None && rfc3339_point(s) is None ==> cursor_date(s) == formatted_point(
            s,
            "%Y-%m-%dT%H:%M:%SZ"@,
        ),
{
}

} // verus!
