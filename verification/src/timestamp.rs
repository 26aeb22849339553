//! Points in time, as the calendar library represents them.

use vstd::prelude::*;

verus! {

/// Seconds since the epoch of the first instant that the calendar holds (-262143-01-01).
pub const MIN_SECS: i64 = -8_334_601_228_800;

/// Seconds since the epoch of the last second that the calendar holds (262142-12-31).
pub const MAX_SECS: i64 = 8_210_266_876_799;

/// Nanoseconds in a second.
pub const NANOS_PER_SEC: u32 = 1_000_000_000;

/// Seconds in a day.
pub const SECS_PER_DAY: i64 = 86_400;

/// Whether `at` is a point that the calendar holds: `at.0` counts the non-leap seconds since the
/// epoch, `at.1` the nanoseconds since that second began. A leap second is written as the second
/// before it, which then lasts up to two billion nanoseconds.
pub open spec fn on_calendar(at: (int, int)) -> bool {
    &&& MIN_SECS <= at.0 <= MAX_SECS
    &&& 0 <= at.1 < 2 * NANOS_PER_SEC
}

/// Whether `a` is the same point in time as `b` or a later one.
pub open spec fn at_or_after(a: (int, int), b: (int, int)) -> bool {
    a.0 > b.0 || (a.0 == b.0 && a.1 >= b.1)
}

/// The point `days` days before `at`. From within a leap second, the count starts at the
/// second that follows it.
pub open spec fn days_back(at: (int, int), days: int) -> (int, int) {
    if at.1 >= NANOS_PER_SEC {
        (at.0 + 1 - days * SECS_PER_DAY, at.1 - NANOS_PER_SEC)
    } else {
        (at.0 - days * SECS_PER_DAY, at.1)
    }
}

/// The second of its day in which `at` lies.
pub open spec fn second_of_day(at: (int, int)) -> int {
    at.0 % (SECS_PER_DAY as int)
}

/// Leap seconds that lie between two points and are not in their second counts: the one that
/// `earlier` is in, if `later` is at a later time of day, or the one that `later` is in, if it is
/// at an earlier time of day.
pub open spec fn leap_between(later: (int, int), earlier: (int, int)) -> int {
    if second_of_day(later) > second_of_day(earlier) && earlier.1 >= NANOS_PER_SEC {
        1
    } else if second_of_day(later) < second_of_day(earlier) && later.1 >= NANOS_PER_SEC {
        -1
    } else {
        0
    }
}

/// Nanoseconds from `earlier` to `later`, negative if `earlier` is the later one.
pub open spec fn nanos_between(later: (int, int), earlier: (int, int)) -> int {
    (later.0 - earlier.0 + leap_between(later, earlier)) * NANOS_PER_SEC + later.1 - earlier.1
}

/// `n / d` with the fraction cut off, for a positive `d`.
pub open spec fn truncated_div(n: int, d: int) -> int {
    if n >= 0 {
        n / d
    } else {
        -((-n) / d)
    }
}

/// Whole seconds from `earlier` to `later`, the fraction cut off.
pub open spec fn seconds_since(later: (int, int), earlier: (int, int)) -> int {
    truncated_div(nanos_between(later, earlier), NANOS_PER_SEC as int)
}

/// Whether `to` is `from` moved by `nanos` nanoseconds, neither of them in a leap second.
pub open spec fn moved(from: (int, int), to: (int, int), nanos: int) -> bool {
    &&& 0 <= from.1 < NANOS_PER_SEC
    &&& 0 <= to.1 < NANOS_PER_SEC
    &&& nanos_between(to, from) == nanos
}

/// The point `millis` milliseconds after the epoch.
pub open spec fn millis_point(millis: int) -> (int, int) {
    (millis / 1000, (millis % 1000) * 1_000_000)
}

/// The point that an RFC 3339 date and time names.
pub uninterp spec fn rfc3339_point(s: Seq<char>) -> Option<(int, int)>;

/// The point that a date and time with an offset names, read by a format.
pub uninterp spec fn formatted_point(s: Seq<char>, format: Seq<char>) -> Option<(int, int)>;

/// The point that an optional timestamp stands for.
pub open spec fn point(t: Option<Timestamp>) -> Option<(int, int)> {
    match t {
        Some(t) => Some(t@),
        None => None,
    }
}

/// A point in time on the calendar, in UTC.
#[derive(Clone, Copy, Debug, PartialEq, Eq, Structural)]
pub struct Timestamp {
    secs: i64,
    nanos: u32,
}

impl View for Timestamp {
    type V = (int, int);

    closed spec fn view(&self) -> (int, int) {
        (self.secs as int, self.nanos as int)
    }
}

impl Timestamp {
    #[verifier::type_invariant]
    pub closed spec fn wf(self) -> bool {
        on_calendar((self.secs as int, self.nanos as int))
    }

    /// The point that lies `nanos` nanoseconds into second `secs`, if the calendar holds it.
    pub fn new(secs: i64, nanos: u32) -> (res: Option<Timestamp>)
        ensures
            res is Some <==> on_calendar((secs as int, nanos as int)),
            res matches Some(t) ==> t@ == (secs as int, nanos as int),
    {
        if MIN_SECS <= secs && secs <= MAX_SECS && nanos < 2 * NANOS_PER_SEC {
            Some(Timestamp { secs, nanos })
        } else {
            None
        }
    }

    /// The point `millis` milliseconds after the epoch, if the calendar holds it.
    ///
    /// Calls `chrono::TimeZone::timestamp_millis_opt` for UTC. Taken on trust: the milliseconds
    /// are split into seconds, rounded down, and nanoseconds, and a point off the calendar is no
    /// result.
    #[verifier::external_body]
    pub(crate) fn from_millis(millis: i64) -> (res: Option<Timestamp>)
        ensures
            res is Some <==> on_calendar(millis_point(millis as int)),
            res matches Some(t) ==> t@ == millis_point(millis as int),
    {
        let at = chrono::TimeZone::timestamp_millis_opt(&chrono::Utc, millis).single()?;
        Some(Timestamp { secs: at.timestamp(), nanos: at.timestamp_subsec_nanos() })
    }

    /// The point that an RFC 3339 date and time names.
    ///
    /// Calls `chrono::DateTime::parse_from_rfc3339` and takes the result to UTC. Taken on trust:
    /// what it names depends on the text alone, and is on the calendar.
    #[verifier::external_body]
    pub(crate) fn from_rfc3339(s: &str) -> (res: Option<Timestamp>)
        ensures
            point(res) == rfc3339_point(s@),
    {
        let at = chrono::DateTime::parse_from_rfc3339(s).ok()?.with_timezone(&chrono::Utc);
        Some(Timestamp { secs: at.timestamp(), nanos: at.timestamp_subsec_nanos() })
    }

    /// The point that a date and time names, read by `format`.
    ///
    /// Calls `chrono::DateTime::parse_from_str` and takes the result to UTC. Taken on trust: what
    /// it names depends on the text and the format alone, and is on the calendar.
    #[verifier::external_body]
    pub(crate) fn from_format(s: &str, format: &str) -> (res: Option<Timestamp>)
        ensures
            point(res) == formatted_point(s@, format@),
    {
        let at = chrono::DateTime::parse_from_str(s, format).ok()?.with_timezone(&chrono::Utc);
        Some(Timestamp { secs: at.timestamp(), nanos: at.timestamp_subsec_nanos() })
    }

    /// Non-leap seconds since the epoch.
    pub fn secs(&self) -> (res: i64)
        ensures
            res == self@.0,
            on_calendar(self@),
    {
        proof {
            use_type_invariant(self);
        }
        self.secs
    }

    /// Nanoseconds since the second began.
    pub fn nanos(&self) -> (res: u32)
        ensures
            res == self@.1,
    {
        self.nanos
    }

    /// Whether `self` is the same point as `other` or a later one.
    pub fn is_at_or_after(&self, other: &Timestamp) -> (res: bool)
        ensures
            res == at_or_after(self@, other@),
    {
        self.secs > other.secs || (self.secs == other.secs && self.nanos >= other.nanos)
    }

    /// Whether the point `days` days earlier is on the calendar.
    pub fn can_go_back(&self, days: i64) -> (res: bool)
        ensures
            res == (days_back(self@, days as int).0 >= MIN_SECS),
    {
        let leap: i128 = if self.nanos >= NANOS_PER_SEC {
            1
        } else {
            0
        };
        self.secs as i128 + leap - days as i128 * 86_400 >= MIN_SECS as i128
    }

    /// The point `days` days earlier.
    ///
    /// Calls `chrono::DateTime::checked_sub_signed` with `chrono::Duration::days(days)`. Taken on
    /// trust: a whole number of days, taken from a point that stays on the calendar, moves the
    /// second count by 86400 a day and leaves the nanoseconds as they are, except that a leap
    /// second is left for the second that follows it.
    #[verifier::external_body]
    pub(crate) fn days_before(self, days: i64) -> (res: Timestamp)
        requires
            days >= 1,
            days_back(self@, days as int).0 >= MIN_SECS,
        ensures
            res@ == days_back(self@, days as int),
    {
        let second = chrono::DateTime::from_timestamp(self.secs, 0).unwrap().naive_utc();
        let at = chrono::Timelike::with_nanosecond(&second, self.nanos).unwrap().and_utc();
        let back = at.checked_sub_signed(chrono::Duration::days(days)).unwrap();
        Timestamp { secs: back.timestamp(), nanos: back.timestamp_subsec_nanos() }
    }

    /// Whole seconds from `earlier` to `self`.
    ///
    /// Calls `chrono::DateTime::signed_duration_since` and `num_seconds` on the duration. Taken on
    /// trust: the result is the difference in nanoseconds, with the leap seconds that the two
    /// points themselves lie in, cut off to whole seconds.
    #[verifier::external_body]
    pub(crate) fn seconds_from(self, earlier: Timestamp) -> (res: i64)
        ensures
            res == seconds_since(self@, earlier@),
    {
        let second = chrono::DateTime::from_timestamp(self.secs, 0).unwrap().naive_utc();
        let to = chrono::Timelike::with_nanosecond(&second, self.nanos).unwrap().and_utc();
        let second = chrono::DateTime::from_timestamp(earlier.secs, 0).unwrap().naive_utc();
        let from = chrono::Timelike::with_nanosecond(&second, earlier.nanos).unwrap().and_utc();
        to.signed_duration_since(from).num_seconds()
    }
}

/// Of two points one is at or after the other, and both are only if they are the same.
pub proof fn law_time_is_ordered(a: (int, int), b: (int, int))
    ensures
        at_or_after(a, b) || at_or_after(b, a),
        at_or_after(a, b) && at_or_after(b, a) ==> a == b,
{
}

/// Going back takes a point of the calendar to an earlier one, and the further the earlier.
pub proof fn law_days_back_is_earlier(at: (int, int), days: int, more: int)
    requires
        on_calendar(at),
        1 <= days < more,
        days_back(at, more).0 >= MIN_SECS,
    ensures
        on_calendar(days_back(at, days)),
        on_calendar(days_back(at, more)),
        at_or_after(at, days_back(at, days)) && at != days_back(at, days),
        at_or_after(days_back(at, days), days_back(at, more)) && days_back(at, days) != days_back(
            at,
            more,
        ),
{
}

/// The time from one point to another is the time back with its sign changed, and none from a
/// point to itself.
pub proof fn law_span_changes_sign(a: (int, int), b: (int, int))
    ensures
        seconds_since(a, b) == -seconds_since(b, a),
        seconds_since(a, a) == 0,
{
}

/// Points that are moved by the same time keep their order and the time between them, and what
/// lies a number of days before them is moved by the same time.
pub proof fn law_moving_keeps_spans(
    a: (int, int),
    moved_a: (int, int),
    b: (int, int),
    moved_b: (int, int),
    nanos: int,
    days: int,
)
    requires
        moved(a, moved_a, nanos),
        moved(b, moved_b, nanos),
    ensures
        seconds_since(moved_a, moved_b) == seconds_since(a, b),
        at_or_after(moved_a, moved_b) == at_or_after(a, b),
        moved(days_back(a, days), days_back(moved_a, days), nanos),
{
}

/// The time to a point from one that is not later is not negative; and where neither is in a leap
/// second, it is the difference of their seconds or one less.
pub proof fn law_later_is_not_negative(later: (int, int), earlier: (int, int))
    requires
        on_calendar(later),
        on_calendar(earlier),
        at_or_after(later, earlier),
    ensures
        seconds_since(later, earlier) >= 0,
        later.1 < NANOS_PER_SEC && earlier.1 < NANOS_PER_SEC ==> later.0 - earlier.0 - 1
            <= seconds_since(later, earlier) <= later.0 - earlier.0,
{
}

/// Time is counted in nanoseconds of seconds that may last two billion of them: a point is at or
/// after another exactly if its count is not less.
pub proof fn law_order_by_count(a: (int, int), b: (int, int))
    requires
        0 <= a.1 < 2_000_000_000,
        0 <= b.1 < 2_000_000_000,
    ensures
        at_or_after(a, b) <==> a.0 * 2_000_000_000 + a.1 >= b.0 * 2_000_000_000 + b.1,
{
}

/// The calendar holds every nanosecond of every second between its bounds, leap seconds included,
/// and nothing else.
pub proof fn law_calendar_has_no_gaps(at: (int, int))
    ensures
        on_calendar(at) <==> -8_334_601_228_800 <= at.0 <= 8_210_266_876_799 && 0 <= at.1
            < 2_000_000_000,
{
}

/// A day has 86400 seconds: outside leap seconds, going back moves by as many a day and leaves the
/// nanoseconds; and going back twice is going back by the sum.
pub proof fn law_days_back_by_seconds(at: (int, int), days: int, more: int)
    requires
        0 <= at.1 < 1_000_000_000,
    ensures
        days_back(at, days).0 + 86_400 * days == at.0,
        days_back(at, days).1 == at.1,
        days_back(days_back(at, days), more) == days_back(at, days + more),
{
}

/// From within a leap second, going back starts at the second that follows it, so that the point
/// that is reached is never in a leap second.
pub proof fn law_days_back_leaves_leap_second(at: (int, int), days: int)
    requires
        1_000_000_000 <= at.1 < 2_000_000_000,
    ensures
        days_back(at, days) == days_back((at.0 + 1, at.1 - 1_000_000_000), days),
        0 <= days_back(at, days).1 < 1_000_000_000,
{
}

/// Outside leap seconds, the time between two points that are `nanos` nanoseconds apart is that
/// many, and its whole seconds are what fits of them, towards zero.
pub proof fn law_span_by_count(later: (int, int), earlier: (int, int), nanos: int)
    requires
        0 <= later.1 < 1_000_000_000,
        0 <= earlier.1 < 1_000_000_000,
        later.0 * 1_000_000_000 + later.1 == earlier.0 * 1_000_000_000 + earlier.1 + nanos,
    ensures
        nanos_between(later, earlier) == nanos,
        nanos >= 0 ==> seconds_since(later, earlier) * 1_000_000_000 <= nanos < (seconds_since(
            later,
            earlier,
        ) + 1) * 1_000_000_000,
        nanos <= 0 ==> (seconds_since(later, earlier) - 1) * 1_000_000_000 < nanos
            <= seconds_since(later, earlier) * 1_000_000_000,
{
}

/// Within a day, the leap second that the earlier point is in counts, and so does the one that the
/// later point is in: both are time that passes between the two.
pub proof fn law_leap_seconds_of_a_day_count(later: (int, int), earlier: (int, int))
    requires
        earlier.0 / 86_400 == later.0 / 86_400,
        earlier.0 < later.0,
        0 <= later.1 < 2_000_000_000,
        0 <= earlier.1 < 2_000_000_000,
    ensures
        nanos_between(later, earlier) == (later.0 - earlier.0) * 1_000_000_000 + later.1
            - earlier.1 + (if earlier.1 >= 1_000_000_000 {
            1_000_000_000int
        } else {
            0
        }),
{
}

/// A point that is a number of milliseconds after the epoch lies a million times as many
/// nanoseconds after it, and never in a leap second.
pub proof fn law_milliseconds_are_counted(millis: int)
    ensures
        millis_point(millis).0 * 1_000_000_000 + millis_point(millis).1 == millis * 1_000_000,
        0 <= millis_point(millis).1 < 1_000_000_000,
{
}

/// An optional timestamp stands for its point, and none for none.
pub proof fn law_point_of_timestamp(t: Timestamp)
    ensures
        point(Some(t)) == Some(t@),
        point(None) is None,
{
}

} // verus!
