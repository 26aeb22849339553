//! How fast a quota is being used up, read off the records of the log.
//!
//! Everything that takes part in a trend is chosen here: the records, the rises between them and
//! the time they span. Rounded arithmetic on those is the caller's, who hands the figures back
//! for the verdict.

use vstd::prelude::*;

use crate::binary64::{
    lemma_constants, lemma_quarter, lemma_unsigned_order, magnitude, number, whole, Binary64,
    EXPONENT_UNIT, FOUR, INFINITY, ONE, SIGN, ZERO,
};
use crate::timestamp::{
    at_or_after, days_back, law_moving_keeps_spans, moved, seconds_since, Timestamp, MIN_SECS,
};
use crate::usage_log::history::{
    distinct_instants, has_history_window, in_order, kept_at, law_order_is_determined,
    law_order_keeps_records, law_records_have_an_order, law_sample_stays_last,
    lemma_filter_permuted, lemma_kept_filter, lemma_permuted_instants, load_relevant_entries,
    of_instant, relevant, relevant_to, sort_by_time, sorted_by_time,
};
use crate::usage_log::sample::UsageLogSample;

verus! {

/// The pattern of -0.1: a percentage that fell by more was reset or dropped.
pub const DROP_THRESHOLD: u64 = 0xBFB9_9999_9999_999A;

/// A record is compared with the last one that is at least this many seconds older.
pub const MIN_GAP_SECONDS: i64 = 30;

/// One of the three percentages that a record holds.
#[derive(Debug, Clone, Copy, PartialEq, Eq, Structural)]
pub enum Lane {
    Session,
    Weekly,
    Model,
}

impl Lane {
    /// The name under which the trend of this percentage is shown.
    pub open spec fn name(self) -> Seq<char> {
        match self {
            Lane::Session => "Primary"@,
            Lane::Weekly => "Secondary"@,
            Lane::Model => "Model"@,
        }
    }

    /// This percentage of `entry`.
    pub open spec fn value(self, entry: UsageLogSample) -> Option<Binary64> {
        match self {
            Lane::Session => entry.session_percent,
            Lane::Weekly => entry.weekly_percent,
            Lane::Model => entry.model_percent,
        }
    }

    /// Whether a record holds this percentage.
    pub open spec fn held(self) -> spec_fn(UsageLogSample) -> bool {
        |entry: UsageLogSample| self.value(entry) is Some
    }

    /// The name under which the trend of this percentage is shown.
    pub fn label(self) -> (res: &'static str)
        ensures
            res@ == self.name(),
    {
        match self {
            Lane::Session => "Primary",
            Lane::Weekly => "Secondary",
            Lane::Model => "Model",
        }
    }

    /// This percentage of `entry`.
    pub fn read(self, entry: &UsageLogSample) -> (res: Option<Binary64>)
        ensures
            res == self.value(*entry),
    {
        match self {
            Lane::Session => entry.session_percent,
            Lane::Weekly => entry.weekly_percent,
            Lane::Model => entry.model_percent,
        }
    }
}

/// How the current pace compares with the average of the last seven days.
#[derive(Debug, Clone, Copy, PartialEq, Eq, Structural)]
pub enum UsageTrendComparison {
    Faster,
    Slower,
    Steady,
    ResetOrDrop,
    Insufficient,
}

/// The trend of one percentage.
#[derive(Debug, Clone, Copy)]
pub struct UsageTrendSummary {
    pub label: &'static str,
    pub delta_percent: Binary64,
    pub per_hour: Binary64,
    pub average_per_day_24h: Option<Binary64>,
    pub average_per_day_7d: Option<Binary64>,
    pub comparison: UsageTrendComparison,
    pub sample_count: usize,
}

/// What an average rise per day is taken of: the pairs of successive percentages that rose, and
/// the seconds from the first record to the last, at least one.
#[derive(Debug)]
pub struct RiseWindow {
    pub rises: Vec<(Binary64, Binary64)>,
    pub elapsed_seconds: i64,
}

/// `RiseWindow` as a mathematical value.
pub struct RiseWindowView {
    pub rises: Seq<(Binary64, Binary64)>,
    pub elapsed_seconds: int,
}

impl View for RiseWindow {
    type V = RiseWindowView;

    open spec fn view(&self) -> RiseWindowView {
        RiseWindowView { rises: self.rises@, elapsed_seconds: self.elapsed_seconds as int }
    }
}

/// What the trend of one percentage is computed from.
#[derive(Debug)]
pub struct TrendBasis {
    pub label: &'static str,
    pub latest: Binary64,
    pub previous: Binary64,
    pub elapsed_seconds: i64,
    pub last_day: Option<RiseWindow>,
    pub last_week: Option<RiseWindow>,
    pub sample_count: usize,
}

/// `TrendBasis` as a mathematical value.
pub struct TrendBasisView {
    pub label: Seq<char>,
    pub latest: Binary64,
    pub previous: Binary64,
    pub elapsed_seconds: int,
    pub last_day: Option<RiseWindowView>,
    pub last_week: Option<RiseWindowView>,
    pub sample_count: nat,
}

/// The view of an optional window.
pub open spec fn window_view(window: Option<RiseWindow>) -> Option<RiseWindowView> {
    match window {
        Some(w) => Some(w@),
        None => None,
    }
}

impl View for TrendBasis {
    type V = TrendBasisView;

    open spec fn view(&self) -> TrendBasisView {
        TrendBasisView {
            label: self.label@,
            latest: self.latest,
            previous: self.previous,
            elapsed_seconds: self.elapsed_seconds as int,
            last_day: window_view(self.last_day),
            last_week: window_view(self.last_week),
            sample_count: self.sample_count as nat,
        }
    }
}

/// Whether a record holds the percentage and is not earlier than `cutoff`.
pub open spec fn in_window(cutoff: (int, int), lane: Lane) -> spec_fn(UsageLogSample) -> bool {
    |entry: UsageLogSample|
        at_or_after(entry.timestamp@, cutoff) && lane.value(entry) is Some
}

/// The records of the last `days` days before `now` that hold the percentage.
pub open spec fn window(
    entries: Seq<UsageLogSample>,
    now: (int, int),
    days: int,
    lane: Lane,
) -> Seq<UsageLogSample> {
    entries.filter(in_window(days_back(now, days), lane))
}

/// The percentages of records that all hold one.
pub open spec fn percentages(entries: Seq<UsageLogSample>, lane: Lane) -> Seq<Binary64> {
    entries.map_values(|entry: UsageLogSample| lane.value(entry)->0)
}

/// The pairs of successive numbers of which the second is greater, in their order.
pub open spec fn rises(numbers: Seq<Binary64>) -> Seq<(Binary64, Binary64)>
    decreases numbers.len(),
{
    if numbers.len() < 2 {
        Seq::empty()
    } else {
        let (a, b) = (numbers[numbers.len() - 2], numbers.last());
        if a.below(b) {
            rises(numbers.drop_last()).push((a, b))
        } else {
            rises(numbers.drop_last())
        }
    }
}

/// What the average rise per day over the last `days` days is taken of; nothing, where fewer
/// than two records are in that time.
pub open spec fn rise_window(
    entries: Seq<UsageLogSample>,
    now: (int, int),
    days: int,
    lane: Lane,
) -> Option<RiseWindowView> {
    let chosen = window(entries, now, days, lane);
    if chosen.len() < 2 {
        None
    } else {
        let span = seconds_since(chosen.last().timestamp@, chosen.first().timestamp@);
        Some(
            RiseWindowView {
                rises: rises(percentages(chosen, lane)),
                elapsed_seconds: if span >= 1 {
                    span
                } else {
                    1
                },
            },
        )
    }
}

/// Whether record `i` can be compared with the last record: it holds the percentage and is old
/// enough.
pub open spec fn comparable(entries: Seq<UsageLogSample>, lane: Lane, i: int) -> bool {
    &&& lane.value(entries[i]) is Some
    &&& seconds_since(entries.last().timestamp@, entries[i].timestamp@) >= MIN_GAP_SECONDS
}

/// The last record before `end` that can be compared with the last record of all.
pub open spec fn comparable_before(entries: Seq<UsageLogSample>, lane: Lane, end: int) -> Option<
    int,
>
    decreases end,
{
    if end <= 0 {
        None
    } else if comparable(entries, lane, end - 1) {
        Some(end - 1)
    } else {
        comparable_before(entries, lane, end - 1)
    }
}

/// The record that the last one is compared with.
pub open spec fn previous_record(entries: Seq<UsageLogSample>, lane: Lane) -> Option<int> {
    if entries.len() > 0 && lane.value(entries.last()) is Some {
        comparable_before(entries, lane, entries.len() - 1)
    } else {
        None
    }
}

/// What the trend of a percentage is computed from; nothing, where the last record does not hold
/// it or there is no record to compare it with.
pub open spec fn trend_basis(entries: Seq<UsageLogSample>, lane: Lane) -> Option<TrendBasisView> {
    match previous_record(entries, lane) {
        Some(i) => {
            let now = entries.last().timestamp@;
            Some(
                TrendBasisView {
                    label: lane.name(),
                    latest: lane.value(entries.last())->0,
                    previous: lane.value(entries[i])->0,
                    elapsed_seconds: seconds_since(now, entries[i].timestamp@),
                    last_day: rise_window(entries, now, 1, lane),
                    last_week: rise_window(entries, now, 7, lane),
                    sample_count: entries.filter(lane.held()).len(),
                },
            )
        },
        None => None,
    }
}

/// Whether the last seven days before the last record are on the calendar, where they are
/// needed.
pub open spec fn has_trend_window(entries: Seq<UsageLogSample>, lane: Lane) -> bool {
    previous_record(entries, lane) is Some ==> days_back(entries.last().timestamp@, 7).0
        >= MIN_SECS
}

/// What the average rise per day over the last `days` days before `now` is taken of: the rises
/// from each record that holds the percentage to the next, and the time from the first of them
/// to the last.
pub fn average_positive_delta_per_day(
    entries: &Vec<UsageLogSample>,
    now: Timestamp,
    days: i64,
    lane: Lane,
) -> (res: Option<RiseWindow>)
    requires
        days >= 1,
        days_back(now@, days as int).0 >= MIN_SECS,
    ensures
        window_view(res) == rise_window(entries@, now@, days as int, lane),
{
    let cutoff: Timestamp = now.days_before(days);
    let ghost chosen = in_window(days_back(now@, days as int), lane);
    let mut bounds: Option<(Timestamp, Timestamp, Binary64)> = None;
    let mut several: bool = false;
    let mut found: Vec<(Binary64, Binary64)> = Vec::new();
    let mut i: usize = 0;
    proof {
        reveal(Seq::filter);
        assert(entries@.take(0).filter(chosen) =~= Seq::empty());
        assert(percentages(Seq::empty(), lane) =~= Seq::empty());
    }
    while i < entries.len()
        invariant
            i <= entries@.len(),
            cutoff@ == days_back(now@, days as int),
            chosen == in_window(days_back(now@, days as int), lane),
            ({
                let w = entries@.take(i as int).filter(chosen);
                &&& bounds is None <==> w.len() == 0
                &&& several <==> w.len() >= 2
                &&& bounds matches Some((first, last, value)) ==> first@ == w.first().timestamp@
                    && last@ == w.last().timestamp@ && lane.value(w.last()) == Some(value)
                &&& found@ == rises(percentages(w, lane))
            }),
        decreases entries@.len() - i,
    {
        let entry = &entries[i];
        let ghost w = entries@.take(i as int).filter(chosen);
        proof {
            assert(entries@.take(i + 1) =~= entries@.take(i as int).push(*entry));
            entries@.take(i as int).lemma_filter_push(*entry, chosen);
        }
        if entry.timestamp.is_at_or_after(&cutoff) {
            if let Some(value) = lane.read(entry) {
                proof {
                    let next = percentages(w.push(*entry), lane);
                    assert(next =~= percentages(w, lane).push(value));
                    assert(next.drop_last() =~= percentages(w, lane));
                }
                match bounds {
                    Some((first, _, before)) => {
                        if before.is_below(value) {
                            found.push((before, value));
                        }
                        several = true;
                        bounds = Some((first, entry.timestamp, value));
                    },
                    None => {
                        bounds = Some((entry.timestamp, entry.timestamp, value));
                    },
                }
            }
        }
        i = i + 1;
    }
    assert(entries@.take(i as int) =~= entries@);
    if !several {
        return None;
    }
    match bounds {
        Some((first, last, _)) => {
            let span: i64 = last.seconds_from(first);
            let elapsed_seconds: i64 = if span >= 1 {
                span
            } else {
                1
            };
            Some(RiseWindow { rises: found, elapsed_seconds })
        },
        None => None,
    }
}

/// The record that the last one is compared with.
fn find_previous(entries: &Vec<UsageLogSample>, lane: Lane) -> (res: Option<usize>)
    requires
        entries@.len() > 0,
        lane.value(entries@.last()) is Some,
    ensures
        res is Some <==> previous_record(entries@, lane) is Some,
        res matches Some(i) ==> previous_record(entries@, lane) == Some(i as int) && i
            < entries@.len() && comparable(entries@, lane, i as int),
{
    let last: usize = entries.len() - 1;
    let mut end: usize = last;
    while end > 0
        invariant
            entries@.len() > 0,
            last == entries@.len() - 1,
            end <= last,
            lane.value(entries@.last()) is Some,
            previous_record(entries@, lane) == comparable_before(entries@, lane, end as int),
        decreases end,
    {
        end = end - 1;
        let entry = &entries[end];
        if lane.read(entry).is_some() && entries[last].timestamp.seconds_from(entry.timestamp)
            >= MIN_GAP_SECONDS {
            return Some(end);
        }
    }
    None
}

/// How many records hold the percentage.
fn count_held(entries: &Vec<UsageLogSample>, lane: Lane) -> (res: usize)
    ensures
        res == entries@.filter(lane.held()).len(),
{
    let mut count: usize = 0;
    let mut i: usize = 0;
    proof {
        reveal(Seq::filter);
        assert(entries@.take(0).filter(lane.held()) =~= Seq::empty());
    }
    while i < entries.len()
        invariant
            i <= entries@.len(),
            count <= i,
            count == entries@.take(i as int).filter(lane.held()).len(),
        decreases entries@.len() - i,
    {
        proof {
            assert(entries@.take(i + 1) =~= entries@.take(i as int).push(entries@[i as int]));
            entries@.take(i as int).lemma_filter_push(entries@[i as int], lane.held());
        }
        if lane.read(&entries[i]).is_some() {
            count = count + 1;
        }
        i = i + 1;
    }
    assert(entries@.take(i as int) =~= entries@);
    count
}

/// What the trend of a percentage is computed from. The last record is compared with the last
/// one at least half a minute older that holds the percentage too.
pub fn trend_of(entries: &Vec<UsageLogSample>, lane: Lane) -> (res: Option<TrendBasis>)
    requires
        has_trend_window(entries@, lane),
    ensures
        basis_view(res) == trend_basis(entries@, lane),
{
    if entries.len() == 0 {
        return None;
    }
    let last: usize = entries.len() - 1;
    let latest: Binary64 = match lane.read(&entries[last]) {
        Some(value) => value,
        None => {
            return None;
        },
    };
    let i: usize = match find_previous(entries, lane) {
        Some(i) => i,
        None => {
            return None;
        },
    };
    let previous: Binary64 = match lane.read(&entries[i]) {
        Some(value) => value,
        None => {
            return None;
        },
    };
    let now: Timestamp = entries[last].timestamp;
    assert(days_back(now@, 1).0 >= days_back(now@, 7).0);
    let last_day = average_positive_delta_per_day(entries, now, 1, lane);
    let last_week = average_positive_delta_per_day(entries, now, 7, lane);
    Some(
        TrendBasis {
            label: lane.label(),
            latest,
            previous,
            elapsed_seconds: now.seconds_from(entries[i].timestamp),
            last_day,
            last_week,
            sample_count: count_held(entries, lane),
        },
    )
}

/// The view of an optional basis.
pub open spec fn basis_view(basis: Option<TrendBasis>) -> Option<TrendBasisView> {
    match basis {
        Some(b) => Some(b@),
        None => None,
    }
}

/// The views of a list of bases.
pub open spec fn basis_views(list: Seq<TrendBasis>) -> Seq<TrendBasisView> {
    list.map_values(|b: TrendBasis| b@)
}

/// `list` with `item` at its end, if there is one.
pub open spec fn with_item(
    list: Seq<TrendBasisView>,
    item: Option<TrendBasisView>,
) -> Seq<TrendBasisView> {
    match item {
        Some(b) => list.push(b),
        None => list,
    }
}

/// Adds what the trend of a percentage is computed from, if it has a trend.
pub fn add_summary(
    summaries: &mut Vec<TrendBasis>,
    entries: &Vec<UsageLogSample>,
    lane: Lane,
)
    requires
        has_trend_window(entries@, lane),
    ensures
        basis_views(final(summaries)@) == with_item(
            basis_views(old(summaries)@),
            trend_basis(entries@, lane),
        ),
{
    let ghost before = summaries@;
    if let Some(basis) = trend_of(entries, lane) {
        summaries.push(basis);
        assert(basis_views(summaries@) =~= basis_views(before).push(basis@));
    }
}

/// What the trends of records in order of time are computed from: of each percentage that has a
/// trend, session, week and model in this order.
pub open spec fn trend_bases(entries: Seq<UsageLogSample>) -> Seq<TrendBasisView> {
    with_item(
        with_item(
            with_item(Seq::empty(), trend_basis(entries, Lane::Session)),
            trend_basis(entries, Lane::Weekly),
        ),
        trend_basis(entries, Lane::Model),
    )
}

/// The records that a summary is made of: the history and the sample itself, in order of time.
pub open spec fn timeline(
    history: Seq<UsageLogSample>,
    sample: UsageLogSample,
) -> Seq<UsageLogSample> {
    choose|entries: Seq<UsageLogSample>| sorted_by_time(history.push(sample), entries)
}

/// What the trends of a sample are computed from: those of the records that bear on it and
/// itself, in order of time.
pub fn summarize_usage(sample: UsageLogSample, records: Vec<UsageLogSample>) -> (res: Vec<
    TrendBasis,
>)
    requires
        has_history_window(sample),
    ensures
        basis_views(res@) == trend_bases(
            timeline(records@.filter(relevant_to(sample)), sample),
        ),
{
    let ghost given = records@;
    let mut entries = load_relevant_entries(records, &sample);
    entries.push(sample);
    sort_by_time(&mut entries);
    proof {
        law_timeline(given, sample, entries@);
    }
    let mut summaries: Vec<TrendBasis> = Vec::new();
    assert(basis_views(summaries@) =~= Seq::empty());
    add_summary(&mut summaries, &entries, Lane::Session);
    add_summary(&mut summaries, &entries, Lane::Weekly);
    add_summary(&mut summaries, &entries, Lane::Model);
    summaries
}

/// Whatever puts the records that bear on a sample and the sample in order of time is the
/// timeline, and the sample is its last record.
pub proof fn law_timeline(
    records: Seq<UsageLogSample>,
    sample: UsageLogSample,
    entries: Seq<UsageLogSample>,
)
    requires
        sorted_by_time(records.filter(relevant_to(sample)).push(sample), entries),
    ensures
        entries == timeline(records.filter(relevant_to(sample)), sample),
        entries.len() > 0,
        entries.last() == sample,
{
    let history = records.filter(relevant_to(sample));
    assert forall|i: int| 0 <= i < history.len() implies at_or_after(
        sample.timestamp@,
        (#[trigger] history[i]).timestamp@,
    ) by {
        records.lemma_filter_pred(relevant_to(sample), i);
    }
    law_sample_stays_last(history, sample, entries);
    law_order_is_determined(history.push(sample), entries, timeline(history, sample));
}

/// The timeline holds the records of the history and the sample, each as often as it is there, in
/// order of time, and those of one instant in the order that they had.
pub proof fn law_timeline_is_in_order(history: Seq<UsageLogSample>, sample: UsageLogSample)
    ensures
        sorted_by_time(history.push(sample), timeline(history, sample)),
        timeline(history, sample).to_multiset() == history.push(sample).to_multiset(),
        timeline(history, sample).len() == history.len() + 1,
{
    law_records_have_an_order(history.push(sample));
    law_order_keeps_records(history.push(sample), timeline(history, sample));
}

/// The number of records that a trend rests on is that of all records of the history that hold
/// the percentage, and the sample.
pub proof fn law_sample_count_is_of_all(
    history: Seq<UsageLogSample>,
    sample: UsageLogSample,
    lane: Lane,
)
    ensures
        trend_basis(timeline(history, sample), lane) matches Some(b) ==> b.sample_count
            == history.push(sample).filter(lane.held()).len(),
{
    law_timeline_is_in_order(history, sample);
    lemma_filter_permuted(timeline(history, sample), history.push(sample), lane.held());
}

/// Records are taken by their time and not by their place in the log: the same records in another
/// order have the same timeline, and so the same trends, if those that bear on the sample are of
/// distinct instants.
pub proof fn law_place_in_log_does_not_matter(
    a: Seq<UsageLogSample>,
    b: Seq<UsageLogSample>,
    sample: UsageLogSample,
)
    requires
        a.to_multiset() == b.to_multiset(),
        distinct_instants(a.filter(relevant_to(sample))),
    ensures
        timeline(a.filter(relevant_to(sample)), sample) == timeline(
            b.filter(relevant_to(sample)),
            sample,
        ),
{
    let (x, y) = (a.filter(relevant_to(sample)), b.filter(relevant_to(sample)));
    let entries = timeline(x, sample);
    lemma_filter_permuted(a, b, relevant_to(sample));
    law_timeline_is_in_order(x, sample);
    law_timeline_is_in_order(y, sample);
    assert forall|at: (int, int)|
        #![trigger of_instant(at)]
        entries.filter(of_instant(at)) == y.push(sample).filter(of_instant(at)) by {
        lemma_permuted_instants(x, y, at);
        x.lemma_filter_push(sample, of_instant(at));
        y.lemma_filter_push(sample, of_instant(at));
        assert(entries.filter(of_instant(at)) == x.push(sample).filter(of_instant(at)));
    }
    law_order_is_determined(y.push(sample), entries, timeline(y, sample));
}

/// The average that a pace is compared with, and how far the current pace exceeds it, both per
/// day.
#[derive(Debug, Clone, Copy, PartialEq, Eq, Structural)]
pub struct Pace {
    pub average_per_day: Binary64,
    pub excess_per_day: Binary64,
}

/// The pace that a change per hour stands for: none, where the percentage fell.
pub open spec fn forward(per_hour: Binary64) -> Binary64 {
    if number(ZERO).below(per_hour) {
        per_hour
    } else {
        number(ZERO)
    }
}

/// The pace that a change per hour stands for: none, where the percentage fell.
pub fn forward_pace(per_hour: Binary64) -> (res: Binary64)
    ensures
        res == forward(per_hour),
{
    let zero = Binary64 { bits: ZERO };
    if zero.is_below(per_hour) {
        per_hour
    } else {
        zero
    }
}

/// By how much the current pace may differ from `average` and still count as steady: a quarter
/// of the average, but at least one.
pub open spec fn tolerance(average: Binary64) -> Binary64 {
    let size = magnitude(average.bits);
    if average.nan() || size <= FOUR {
        number(ONE)
    } else if size == INFINITY {
        number(INFINITY)
    } else {
        number((size - 2 * EXPONENT_UNIT) as u64)
    }
}

/// How a pace compares. A percentage that fell was reset; without an average there is nothing to
/// compare with; otherwise the pace counts as steady within the tolerance.
pub open spec fn comparison(delta: Binary64, pace: Option<Pace>) -> UsageTrendComparison {
    if delta.below(number(DROP_THRESHOLD)) {
        UsageTrendComparison::ResetOrDrop
    } else {
        match pace {
            None => UsageTrendComparison::Insufficient,
            Some(p) => {
                let limit = tolerance(p.average_per_day);
                let floor = number((limit.bits + SIGN) as u64);
                if limit.below(p.excess_per_day) {
                    UsageTrendComparison::Faster
                } else if p.excess_per_day.below(floor) {
                    UsageTrendComparison::Slower
                } else {
                    UsageTrendComparison::Steady
                }
            },
        }
    }
}

/// By how much the current pace may differ from `average` and still count as steady.
fn tolerance_of(average: Binary64) -> (res: Binary64)
    ensures
        res == tolerance(average),
        res.bits < SIGN,
{
    let size: Binary64 = average.absolute();
    if average.is_nan() || size.bits <= FOUR {
        Binary64 { bits: ONE }
    } else if size.bits == INFINITY {
        Binary64 { bits: INFINITY }
    } else {
        Binary64 { bits: size.bits - 2 * EXPONENT_UNIT }
    }
}

/// How the current pace compares with the average: `delta_percent` is what the percentage
/// changed by, `pace` the average and what the current pace has above it.
pub fn compare_current_to_average(
    delta_percent: Binary64,
    pace: Option<Pace>,
) -> (res: UsageTrendComparison)
    ensures
        res == comparison(delta_percent, pace),
{
    if delta_percent.is_below(Binary64 { bits: DROP_THRESHOLD }) {
        return UsageTrendComparison::ResetOrDrop;
    }
    match pace {
        None => UsageTrendComparison::Insufficient,
        Some(p) => {
            let limit: Binary64 = tolerance_of(p.average_per_day);
            if limit.is_below(p.excess_per_day) {
                UsageTrendComparison::Faster
            } else if p.excess_per_day.is_below(limit.negated()) {
                UsageTrendComparison::Slower
            } else {
                UsageTrendComparison::Steady
            }
        },
    }
}

/// The rounded figures of one trend: the change from the previous record to the latest, that
/// change per hour, the average rise per day over the last day, and over the last week together
/// with what the current pace has above it.
#[derive(Debug, Clone, Copy, PartialEq, Eq, Structural)]
pub struct TrendFigures {
    pub delta_percent: Binary64,
    pub per_hour: Binary64,
    pub average_per_day_24h: Option<Binary64>,
    pub pace_7d: Option<Pace>,
}

/// The average over the last day that counts: none, where the basis has no such window.
pub open spec fn day_average(basis: TrendBasis, figures: TrendFigures) -> Option<Binary64> {
    match basis.last_day {
        Some(_) => figures.average_per_day_24h,
        None => None,
    }
}

/// The pace over the last week that counts: none, where the basis has no such window.
pub open spec fn week_pace(basis: TrendBasis, figures: TrendFigures) -> Option<Pace> {
    match basis.last_week {
        Some(_) => figures.pace_7d,
        None => None,
    }
}

/// The trend that a basis and its figures make. A figure over a window that the basis does not
/// have does not count.
pub fn complete_summary(basis: &TrendBasis, figures: TrendFigures) -> (res: UsageTrendSummary)
    ensures
        res.label@ == basis.label@,
        res.delta_percent == figures.delta_percent,
        res.per_hour == figures.per_hour,
        res.average_per_day_24h == day_average(*basis, figures),
        res.average_per_day_7d == (match week_pace(*basis, figures) {
            Some(p) => Some(p.average_per_day),
            None => None,
        }),
        res.comparison == comparison(figures.delta_percent, week_pace(*basis, figures)),
        res.sample_count == basis.sample_count,
{
    let average_per_day_24h: Option<Binary64> = match &basis.last_day {
        Some(_) => figures.average_per_day_24h,
        None => None,
    };
    let pace_7d: Option<Pace> = match &basis.last_week {
        Some(_) => figures.pace_7d,
        None => None,
    };
    UsageTrendSummary {
        label: basis.label,
        delta_percent: figures.delta_percent,
        per_hour: figures.per_hour,
        average_per_day_24h,
        average_per_day_7d: match pace_7d {
            Some(p) => Some(p.average_per_day),
            None => None,
        },
        comparison: compare_current_to_average(figures.delta_percent, pace_7d),
        sample_count: basis.sample_count,
    }
}

/// The tolerance is a quarter of the average, whatever its sign, but at least one.
pub proof fn law_tolerance_is_a_quarter(average: Binary64)
    requires
        average.finite(),
    ensures
        tolerance(average).finite(),
        tolerance(average).bits < SIGN,
        ({
            let size = if average.value() < 0 {
                -average.value()
            } else {
                average.value()
            };
            4 * tolerance(average).value() == (if size > whole(4) {
                size
            } else {
                whole(4)
            })
        }),
{
    let size = magnitude(average.bits);
    lemma_constants();
    lemma_unsigned_order(size, FOUR as int);
    lemma_unsigned_order(FOUR as int, size);
    lemma_unsigned_order(0, size);
    assert(4 * whole(1) == whole(4)) by (nonlinear_arith);
    if size > FOUR {
        lemma_quarter(size);
    }
}

/// Among numbers, a pace is faster if it exceeds the average by more than the tolerance, slower
/// if it falls short of it by more, and otherwise steady: the verdicts exclude each other.
pub proof fn law_comparison_by_value(delta: Binary64, pace: Pace)
    requires
        !delta.nan(),
        !pace.excess_per_day.nan(),
    ensures
        ({
            let verdict = comparison(delta, Some(pace));
            let excess = pace.excess_per_day.value();
            let limit = tolerance(pace.average_per_day).value();
            &&& verdict is ResetOrDrop <==> delta.value() < number(DROP_THRESHOLD).value()
            &&& !(verdict is ResetOrDrop) ==> {
                &&& verdict is Faster <==> excess > limit
                &&& verdict is Slower <==> excess < -limit
                &&& verdict is Steady <==> -limit <= excess <= limit
            }
        }),
{
    let t = tolerance(pace.average_per_day);
    lemma_unsigned_order(0, t.bits as int);
    assert(magnitude((t.bits + SIGN) as u64) == t.bits);
}

/// A change that is not positive stands for no pace, whatever it is, and a greater change never
/// stands for a lesser pace.
pub proof fn law_forward_pace_keeps_order(a: Binary64, b: Binary64)
    requires
        !a.nan(),
        !b.nan(),
        a.value() <= b.value(),
    ensures
        a.value() <= 0 ==> forward(a) == number(ZERO),
        0 <= forward(a).value() <= forward(b).value(),
{
    lemma_constants();
}

/// Where a verdict on a pace stands, from the slowest to the fastest. A reset and the lack of an
/// average are no such verdicts.
pub open spec fn rank(verdict: UsageTrendComparison) -> Option<int> {
    match verdict {
        UsageTrendComparison::Slower => Some(0),
        UsageTrendComparison::Steady => Some(1),
        UsageTrendComparison::Faster => Some(2),
        UsageTrendComparison::ResetOrDrop => None,
        UsageTrendComparison::Insufficient => None,
    }
}

/// A pace that exceeds the same average by more never reads as slower.
pub proof fn law_more_excess_is_no_slower(
    delta: Binary64,
    average_per_day: Binary64,
    less: Binary64,
    more: Binary64,
)
    requires
        !delta.below(number(DROP_THRESHOLD)),
        !less.nan(),
        !more.nan(),
        less.value() <= more.value(),
    ensures
        ({
            let a = comparison(delta, Some(Pace { average_per_day, excess_per_day: less }));
            let b = comparison(delta, Some(Pace { average_per_day, excess_per_day: more }));
            rank(a) is Some && rank(b) is Some && rank(a)->0 <= rank(b)->0
        }),
{
    let t = tolerance(average_per_day);
    lemma_unsigned_order(0, t.bits as int);
    assert(magnitude((t.bits + SIGN) as u64) == t.bits);
}

/// Whether `excess`, which takes a pace per hour to what it has above an average per day, keeps the
/// order of paces, as rounded arithmetic does.
pub open spec fn keeps_order(excess: spec_fn(Binary64) -> Binary64) -> bool {
    forall|x: Binary64, y: Binary64|
        #![trigger excess(x), excess(y)]
        !x.nan() && !y.nan() && 0 <= x.value() <= y.value() ==> {
            &&& !excess(x).nan()
            &&& !excess(y).nan()
            &&& excess(x).value() <= excess(y).value()
        }
}

/// A greater change per hour never reads as slower, whatever the arithmetic that takes a pace to
/// its excess over the average, if it keeps the order of paces; and every change that is not
/// positive reads as none.
pub proof fn law_higher_rate_is_no_slower(
    delta: Binary64,
    average_per_day: Binary64,
    excess: spec_fn(Binary64) -> Binary64,
    less: Binary64,
    more: Binary64,
)
    requires
        !delta.below(number(DROP_THRESHOLD)),
        !less.nan(),
        !more.nan(),
        less.value() <= more.value(),
        keeps_order(excess),
    ensures
        ({
            let a = comparison(
                delta,
                Some(Pace { average_per_day, excess_per_day: excess(forward(less)) }),
            );
            let b = comparison(
                delta,
                Some(Pace { average_per_day, excess_per_day: excess(forward(more)) }),
            );
            let none = comparison(
                delta,
                Some(Pace { average_per_day, excess_per_day: excess(number(ZERO)) }),
            );
            &&& rank(a) is Some && rank(b) is Some && rank(a)->0 <= rank(b)->0
            &&& less.value() <= 0 ==> a == none
        }),
{
    law_forward_pace_keeps_order(less, more);
    let (x, y) = (excess(forward(less)), excess(forward(more)));
    assert(!forward(less).nan() && !forward(more).nan());
    assert(x.value() <= y.value());
    law_more_excess_is_no_slower(delta, average_per_day, x, y);
}

/// A record that satisfies `p` wherever it satisfies `q` is among those of `p` if it is among
/// those of `q`.
proof fn lemma_filter_wider(
    s: Seq<UsageLogSample>,
    q: spec_fn(UsageLogSample) -> bool,
    p: spec_fn(UsageLogSample) -> bool,
)
    requires
        forall|e: UsageLogSample| #[trigger] q(e) ==> p(e),
    ensures
        s.filter(q).len() <= s.filter(p).len(),
    decreases s.len(),
{
    reveal(Seq::filter);
    if s.len() > 0 {
        lemma_filter_wider(s.drop_last(), q, p);
        assert(q(s.last()) ==> p(s.last()));
    }
}

/// Whatever has an average over the last day has one over the last week.
pub proof fn law_day_implies_week(entries: Seq<UsageLogSample>, now: (int, int), lane: Lane)
    ensures
        rise_window(entries, now, 1, lane) is Some ==> rise_window(entries, now, 7, lane) is Some,
{
    let q = in_window(days_back(now, 1), lane);
    let p = in_window(days_back(now, 7), lane);
    assert(days_back(now, 7).0 < days_back(now, 1).0);
    assert forall|e: UsageLogSample| #[trigger] q(e) implies p(e) by {}
    lemma_filter_wider(entries, q, p);
}

/// Records that do not hold the percentage, or are earlier than the window, make no difference to
/// what an average is taken of, wherever they are.
pub proof fn law_only_the_window_counts(
    entries: Seq<UsageLogSample>,
    keep: spec_fn(int) -> bool,
    now: (int, int),
    days: int,
    lane: Lane,
)
    requires
        forall|i: int|
            0 <= i < entries.len() && !keep(i) ==> lane.value(#[trigger] entries[i]) is None
                || !at_or_after(entries[i].timestamp@, days_back(now, days)),
    ensures
        rise_window(kept_at(entries, keep), now, days, lane) == rise_window(
            entries,
            now,
            days,
            lane,
        ),
{
    lemma_kept_filter(entries, keep, in_window(days_back(now, days), lane));
}

/// Whether two lists hold the same percentages, at times that are all moved by `nanos`
/// nanoseconds.
pub open spec fn moved_alike(
    entries: Seq<UsageLogSample>,
    others: Seq<UsageLogSample>,
    nanos: int,
    lane: Lane,
) -> bool {
    &&& entries.len() == others.len()
    &&& forall|i: int|
        #![trigger entries[i], others[i]]
        0 <= i < entries.len() ==> moved(entries[i].timestamp@, others[i].timestamp@, nanos)
            && lane.value(entries[i]) == lane.value(others[i])
}

/// The windows of lists that are moved alike are moved alike.
proof fn lemma_moved_window(
    entries: Seq<UsageLogSample>,
    others: Seq<UsageLogSample>,
    cutoff: (int, int),
    moved_cutoff: (int, int),
    nanos: int,
    lane: Lane,
)
    requires
        moved_alike(entries, others, nanos, lane),
        moved(cutoff, moved_cutoff, nanos),
    ensures
        moved_alike(
            entries.filter(in_window(cutoff, lane)),
            others.filter(in_window(moved_cutoff, lane)),
            nanos,
            lane,
        ),
    decreases entries.len(),
{
    let (p, q) = (in_window(cutoff, lane), in_window(moved_cutoff, lane));
    if entries.len() == 0 {
        entries.lemma_filter_len(p);
        others.lemma_filter_len(q);
    } else {
        let (a, b) = (entries.drop_last(), others.drop_last());
        let (x, y) = (entries.last(), others.last());
        assert(entries =~= a.push(x));
        assert(others =~= b.push(y));
        assert(moved_alike(a, b, nanos, lane)) by {
            assert forall|i: int|
                #![trigger a[i], b[i]]
                0 <= i < a.len() implies moved(a[i].timestamp@, b[i].timestamp@, nanos)
                    && lane.value(a[i]) == lane.value(b[i]) by {
                assert(a[i] == entries[i] && b[i] == others[i]);
            }
        }
        lemma_moved_window(a, b, cutoff, moved_cutoff, nanos, lane);
        a.lemma_filter_push(x, p);
        b.lemma_filter_push(y, q);
        assert(x == entries[entries.len() - 1] && y == others[others.len() - 1]);
        law_moving_keeps_spans(x.timestamp@, y.timestamp@, cutoff, moved_cutoff, nanos, 0);
    }
}

/// What an average is taken of depends on how far apart the times are and not on when: moved by
/// the same time, the records and the end of the window give the same.
pub proof fn law_moved_records_rise_alike(
    entries: Seq<UsageLogSample>,
    others: Seq<UsageLogSample>,
    now: (int, int),
    moved_now: (int, int),
    nanos: int,
    days: int,
    lane: Lane,
)
    requires
        moved_alike(entries, others, nanos, lane),
        moved(now, moved_now, nanos),
    ensures
        rise_window(others, moved_now, days, lane) == rise_window(entries, now, days, lane),
{
    law_moving_keeps_spans(now, moved_now, now, moved_now, nanos, days);
    lemma_moved_window(
        entries,
        others,
        days_back(now, days),
        days_back(moved_now, days),
        nanos,
        lane,
    );
    let (a, b) = (window(entries, now, days, lane), window(others, moved_now, days, lane));
    assert(percentages(a, lane) =~= percentages(b, lane));
    if a.len() >= 2 {
        let last = a.len() - 1;
        assert(a.last() == a[last] && b.last() == b[last]);
        law_moving_keeps_spans(
            a[last].timestamp@,
            b[last].timestamp@,
            a[0].timestamp@,
            b[0].timestamp@,
            nanos,
            0,
        );
    }
}

/// A trend rests on at least two records that hold the percentage, and on a stretch of at least
/// half a minute between the two that are compared.
pub proof fn law_trend_needs_two_records(entries: Seq<UsageLogSample>, lane: Lane)
    ensures
        trend_basis(entries, lane) matches Some(b) ==> b.sample_count >= 2 && b.elapsed_seconds
            >= MIN_GAP_SECONDS,
{
    if let Some(i) = previous_record(entries, lane) {
        lemma_comparable_before(entries, lane, entries.len() - 1);
        let (head, tail) = (entries.take(i + 1), entries.skip(i + 1));
        assert(entries =~= head + tail);
        Seq::filter_distributes_over_add(head, tail, lane.held());
        reveal(Seq::filter);
        assert(head.last() == entries[i]);
        assert(tail.last() == entries.last());
    }
}

/// `comparable_before` finds a record that can be compared, and none after it can.
proof fn lemma_comparable_before(entries: Seq<UsageLogSample>, lane: Lane, end: int)
    ensures
        comparable_before(entries, lane, end) matches Some(i) ==> 0 <= i < end && comparable(
            entries,
            lane,
            i,
        ) && forall|j: int| i < j < end ==> !comparable(entries, lane, j),
        comparable_before(entries, lane, end) is None ==> forall|j: int|
            0 <= j < end ==> !comparable(entries, lane, j),
    decreases end,
{
    if end > 0 && !comparable(entries, lane, end - 1) {
        lemma_comparable_before(entries, lane, end - 1);
    }
}

/// The latest record is compared with the last comparable one before it: none in between could
/// have been taken.
pub proof fn law_previous_is_the_last_comparable(entries: Seq<UsageLogSample>, lane: Lane)
    ensures
        previous_record(entries, lane) matches Some(i) ==> {
            &&& 0 <= i < entries.len() - 1
            &&& comparable(entries, lane, i)
            &&& forall|j: int|
                i < j < entries.len() - 1 ==> !comparable(entries, lane, j)
        },
{
    lemma_comparable_before(entries, lane, entries.len() - 1);
}

/// The same record at the end once more is not compared with itself, so that the last record is
/// compared with the one it was compared with before.
proof fn lemma_repeated_last(entries: Seq<UsageLogSample>, lane: Lane, end: int)
    requires
        0 <= end <= entries.len(),
        entries.len() > 0,
    ensures
        comparable_before(entries.push(entries.last()), lane, end) == comparable_before(
            entries,
            lane,
            end,
        ),
    decreases end,
{
    if end > 0 {
        assert(entries.push(entries.last())[end - 1] == entries[end - 1]);
        lemma_repeated_last(entries, lane, end - 1);
    }
}

/// Once a sample is recorded it is one of the records that bear on it, so that its trends count
/// it twice: it is compared as if it had not been recorded, and the number of records that a
/// trend rests on is greater by one.
pub proof fn law_recorded_sample_counts_twice(
    records: Seq<UsageLogSample>,
    sample: UsageLogSample,
    lane: Lane,
)
    ensures
        ({
            let once = timeline(records.filter(relevant_to(sample)), sample);
            let twice = timeline(records.push(sample).filter(relevant_to(sample)), sample);
            &&& twice == once.push(sample)
            &&& match (trend_basis(once, lane), trend_basis(twice, lane)) {
                (Some(a), Some(b)) => {
                    &&& b.label == a.label
                    &&& b.latest == a.latest
                    &&& b.previous == a.previous
                    &&& b.elapsed_seconds == a.elapsed_seconds
                    &&& b.sample_count == a.sample_count + 1
                },
                (None, None) => true,
                _ => false,
            }
        }),
{
    let p = relevant_to(sample);
    let history = records.filter(p);
    let all = history.push(sample);
    let entries = timeline(history, sample);
    let twice = entries.push(sample);
    law_timeline_is_in_order(history, sample);
    law_timeline(records, sample, entries);
    assert(relevant(sample, sample));
    records.lemma_filter_push(sample, p);
    assert(sorted_by_time(all.push(sample), twice)) by {
        assert forall|i: int, j: int| 0 <= i <= j < twice.len() implies at_or_after(
            (#[trigger] twice[j]).timestamp@,
            (#[trigger] twice[i]).timestamp@,
        ) by {
            if j == entries.len() && i < j {
                assert(at_or_after(entries[j - 1].timestamp@, entries[i].timestamp@));
            } else if i < j {
                assert(at_or_after(entries[j].timestamp@, entries[i].timestamp@));
            }
        }
        assert(in_order(twice));
        assert forall|at: (int, int)|
            #![trigger of_instant(at)]
            twice.filter(of_instant(at)) == all.push(sample).filter(of_instant(at)) by {
            entries.lemma_filter_push(sample, of_instant(at));
            all.lemma_filter_push(sample, of_instant(at));
            assert(entries.filter(of_instant(at)) == all.filter(of_instant(at)));
        }
    }
    law_timeline(records.push(sample), sample, twice);
    lemma_repeated_last(entries, lane, entries.len() - 1);
    assert(!comparable(twice, lane, entries.len() - 1));
    entries.lemma_filter_push(sample, lane.held());
    if let Some(i) = previous_record(entries, lane) {
        lemma_comparable_before(entries, lane, entries.len() - 1);
        assert(twice[i] == entries[i]);
    }
}

/// Every rise is one: the second number of each pair is the greater.
pub proof fn law_rises_rise(numbers: Seq<Binary64>, i: int)
    requires
        0 <= i < rises(numbers).len(),
    ensures
        rises(numbers)[i].0.below(rises(numbers)[i].1),
    decreases numbers.len(),
{
    if numbers.len() >= 2 && i < rises(numbers.drop_last()).len() {
        law_rises_rise(numbers.drop_last(), i);
    }
}

/// A sample without history has no trend.
pub proof fn law_no_history_no_trends(sample: UsageLogSample)
    ensures
        trend_bases(timeline(Seq::empty(), sample)) == Seq::<TrendBasisView>::empty(),
{
    let alone = Seq::empty().push(sample);
    assert(sorted_by_time(alone, alone));
    law_order_is_determined(alone, alone, timeline(Seq::empty(), sample));
}

/// The percentages by name: the session's is the primary one, the week's the secondary, and the
/// model's has its own name.
pub proof fn law_lanes_by_name(entry: UsageLogSample)
    ensures
        Lane::Session.value(entry) == entry.session_percent,
        Lane::Weekly.value(entry) == entry.weekly_percent,
        Lane::Model.value(entry) == entry.model_percent,
        Lane::Session.name() == "Primary"@,
        Lane::Weekly.name() == "Secondary"@,
        Lane::Model.name() == "Model"@,
{
}

/// Two numbers rise exactly if the second is greater, and a single one does not.
pub proof fn law_two_numbers_rise(a: Binary64, b: Binary64)
    ensures
        rises(seq![a]) == Seq::<(Binary64, Binary64)>::empty(),
        rises(seq![a, b]) == (if a.below(b) {
            seq![(a, b)]
        } else {
            Seq::empty()
        }),
{
    assert(rises(seq![a, b].drop_last()) =~= Seq::empty());
}

/// Rises add up: those of a list are those up to any of its numbers, followed by those from that
/// number on. Nothing that comes later takes a rise away, no fall and no reset.
pub proof fn law_rises_add_up(numbers: Seq<Binary64>, k: int)
    requires
        1 <= k <= numbers.len(),
    ensures
        rises(numbers) == rises(numbers.take(k)) + rises(numbers.skip(k - 1)),
    decreases numbers.len() - k,
{
    let n = numbers.len() as int;
    let tail = numbers.skip(k - 1);
    if k == n {
        assert(numbers.take(k) =~= numbers);
        assert(rises(tail) =~= Seq::empty());
        assert(rises(numbers) =~= rises(numbers.take(k)) + rises(tail));
    } else {
        let head = numbers.drop_last();
        law_rises_add_up(head, k);
        assert(head.take(k) =~= numbers.take(k));
        assert(head.skip(k - 1) =~= tail.drop_last());
        assert(tail.last() == numbers.last());
        assert(tail[tail.len() - 2] == numbers[n - 2]);
        assert(rises(numbers) =~= rises(numbers.take(k)) + rises(tail));
    }
}

/// Every rise is counted: each number that is followed by a greater one gives its pair, in the
/// place that the rises before it leave to it.
pub proof fn law_every_rise_counts(numbers: Seq<Binary64>, i: int)
    requires
        0 <= i < numbers.len() - 1,
    ensures
        numbers[i].below(numbers[i + 1]) ==> {
            let place = rises(numbers.take(i + 1)).len() as int;
            &&& place < rises(numbers).len()
            &&& rises(numbers)[place] == (numbers[i], numbers[i + 1])
            &&& rises(numbers.take(i + 2)).len() == place + 1
        },
        !numbers[i].below(numbers[i + 1]) ==> rises(numbers.take(i + 2)) == rises(
            numbers.take(i + 1),
        ),
        rises(numbers.take(1)) == Seq::<(Binary64, Binary64)>::empty(),
{
    let upto = numbers.take(i + 2);
    law_rises_add_up(numbers, i + 2);
    assert(upto.drop_last() =~= numbers.take(i + 1));
    assert(upto.last() == numbers[i + 1] && upto[upto.len() - 2] == numbers[i]);
    assert(rises(numbers.take(1)) =~= Seq::empty());
}

/// The record that satisfies `p` and is followed by none that does is the last that does; and
/// likewise the first.
proof fn lemma_ends_of_filter(
    s: Seq<UsageLogSample>,
    p: spec_fn(UsageLogSample) -> bool,
    first: int,
    last: int,
)
    requires
        0 <= first <= last < s.len(),
        p(s[first]),
        p(s[last]),
        forall|j: int| 0 <= j < first ==> !p(#[trigger] s[j]),
        forall|j: int| last < j < s.len() ==> !p(#[trigger] s[j]),
    ensures
        s.filter(p).len() > 0,
        s.filter(p).first() == s[first],
        s.filter(p).last() == s[last],
        first < last ==> s.filter(p).len() >= 2,
        first == last ==> s.filter(p).len() == 1,
{
    let (a, x, rest) = (s.take(first), seq![s[first]], s.skip(first + 1));
    let (b, y, c) = (s.take(last), seq![s[last]], s.skip(last + 1));
    assert(s =~= a + x + rest);
    assert(s =~= b + y + c);
    assert forall|e: UsageLogSample| a.contains(e) implies !p(e) by {
        let j = choose|j: int| 0 <= j < a.len() && a[j] == e;
        assert(a[j] == s[j]);
    }
    assert forall|e: UsageLogSample| c.contains(e) implies !p(e) by {
        let j = choose|j: int| 0 <= j < c.len() && c[j] == e;
        assert(c[j] == s[last + 1 + j]);
    }
    a.lemma_all_neg_filter_empty(p);
    c.lemma_all_neg_filter_empty(p);
    Seq::filter_distributes_over_add(a + x, rest, p);
    Seq::filter_distributes_over_add(a, x, p);
    Seq::filter_distributes_over_add(b + y, c, p);
    Seq::filter_distributes_over_add(b, y, p);
    let none = Seq::<UsageLogSample>::empty();
    none.lemma_filter_push(s[first], p);
    none.lemma_filter_push(s[last], p);
    assert(none.push(s[first]) =~= x && none.push(s[last]) =~= y);
    none.lemma_filter_len(p);
    assert(x.filter(p) =~= x && y.filter(p) =~= y);
    assert(s.filter(p) =~= x + rest.filter(p));
    assert(s.filter(p) =~= b.filter(p) + y);
    if first < last {
        assert(b[first] == s[first]);
        b.lemma_filter_contains(p, first);
        assert(b.filter(p).len() > 0);
    } else {
        assert(b =~= a);
    }
}

/// A window counts exactly if two records or more are in it: the time it spans is from the first of
/// them to the last, and at least a second.
pub proof fn law_window_by_its_ends(
    entries: Seq<UsageLogSample>,
    now: (int, int),
    days: int,
    lane: Lane,
    first: int,
    last: int,
    res: Option<RiseWindow>,
)
    requires
        window_view(res) == rise_window(entries, now, days, lane),
        0 <= first <= last < entries.len(),
        lane.value(entries[first]) is Some,
        lane.value(entries[last]) is Some,
        at_or_after(entries[first].timestamp@, days_back(now, days)),
        at_or_after(entries[last].timestamp@, days_back(now, days)),
        forall|j: int|
            0 <= j < first || last < j < entries.len() ==> lane.value(
                #[trigger] entries[j],
            ) is None || !at_or_after(entries[j].timestamp@, days_back(now, days)),
    ensures
        res is Some <==> first < last,
        res matches Some(w) ==> {
            let span = seconds_since(entries[last].timestamp@, entries[first].timestamp@);
            &&& span >= 1 ==> w.elapsed_seconds == span
            &&& span < 1 ==> w.elapsed_seconds == 1
        },
{
    lemma_ends_of_filter(entries, in_window(days_back(now, days), lane), first, last);
}

/// A time without records that hold the percentage has no average.
pub proof fn law_empty_window_has_no_average(
    entries: Seq<UsageLogSample>,
    now: (int, int),
    days: int,
    lane: Lane,
)
    requires
        forall|j: int|
            0 <= j < entries.len() ==> lane.value(#[trigger] entries[j]) is None || !at_or_after(
                entries[j].timestamp@,
                days_back(now, days),
            ),
    ensures
        rise_window(entries, now, days, lane) is None,
{
    let p = in_window(days_back(now, days), lane);
    assert forall|e: UsageLogSample| entries.contains(e) implies !p(e) by {
        let j = choose|j: int| 0 <= j < entries.len() && entries[j] == e;
    }
    entries.lemma_all_neg_filter_empty(p);
}

/// The rises that an average is taken of.
pub open spec fn rises_of(window: Option<RiseWindowView>) -> Seq<(Binary64, Binary64)> {
    match window {
        Some(w) => w.rises,
        None => Seq::empty(),
    }
}

/// One more record in the window adds the rise from the last record in it, if there is one, and
/// takes none away: what was used before a reset stays counted.
pub proof fn law_one_more_record_adds_its_rise(
    entries: Seq<UsageLogSample>,
    entry: UsageLogSample,
    now: (int, int),
    days: int,
    lane: Lane,
    last: int,
    from: Binary64,
    to: Binary64,
)
    requires
        lane.value(entry) == Some(to),
        at_or_after(entry.timestamp@, days_back(now, days)),
        0 <= last < entries.len(),
        lane.value(entries[last]) == Some(from),
        at_or_after(entries[last].timestamp@, days_back(now, days)),
        forall|j: int|
            last < j < entries.len() ==> lane.value(#[trigger] entries[j]) is None || !at_or_after(
                entries[j].timestamp@,
                days_back(now, days),
            ),
    ensures
        rise_window(entries.push(entry), now, days, lane) is Some,
        from.below(to) ==> rises_of(rise_window(entries.push(entry), now, days, lane)) == rises_of(
            rise_window(entries, now, days, lane),
        ).push((from, to)),
        !from.below(to) ==> rises_of(rise_window(entries.push(entry), now, days, lane))
            == rises_of(rise_window(entries, now, days, lane)),
{
    let p = in_window(days_back(now, days), lane);
    let (head, tail) = (entries.take(last + 1), entries.skip(last + 1));
    assert(entries =~= head + tail);
    assert forall|e: UsageLogSample| tail.contains(e) implies !p(e) by {
        let j = choose|j: int| 0 <= j < tail.len() && tail[j] == e;
        assert(tail[j] == entries[last + 1 + j]);
    }
    tail.lemma_all_neg_filter_empty(p);
    Seq::filter_distributes_over_add(head, tail, p);
    assert(entries.filter(p) =~= head.filter(p));
    assert(head =~= head.drop_last().push(entries[last]));
    head.drop_last().lemma_filter_push(entries[last], p);
    let w = entries.filter(p);
    assert(w.last() == entries[last]);
    entries.lemma_filter_push(entry, p);
    let (before, after) = (percentages(w, lane), percentages(w.push(entry), lane));
    assert(after =~= before.push(to));
    assert(after.drop_last() =~= before);
    assert(before.last() == from);
    assert(after[after.len() - 2] == from);
    if w.len() < 2 {
        assert(rises(before) =~= Seq::empty());
    }
}

/// A window by its fields is what is shown of it.
pub proof fn law_window_by_fields(window: RiseWindow, res: Option<RiseWindowView>)
    requires
        window_view(Some(window)) == res,
    ensures
        res matches Some(v) && v.rises == window.rises@ && v.elapsed_seconds
            == window.elapsed_seconds,
        window_view(None) is None,
{
}

/// There is a trend whenever the last record holds the percentage and an earlier one that is half a
/// minute older holds it too, whichever way the percentage went; it compares the last record with
/// the last such earlier one.
pub proof fn law_trend_exists(
    entries: Seq<UsageLogSample>,
    lane: Lane,
    i: int,
    latest: Binary64,
    previous: Binary64,
    res: Option<TrendBasis>,
)
    requires
        basis_view(res) == trend_basis(entries, lane),
        0 <= i < entries.len() - 1,
        lane.value(entries.last()) == Some(latest),
        lane.value(entries[i]) == Some(previous),
        seconds_since(entries.last().timestamp@, entries[i].timestamp@) >= 30,
        forall|j: int|
            i < j < entries.len() - 1 ==> lane.value(#[trigger] entries[j]) is None
                || seconds_since(entries.last().timestamp@, entries[j].timestamp@) < 30,
    ensures
        res matches Some(b) && b.latest == latest && b.previous == previous && b.elapsed_seconds
            == seconds_since(entries.last().timestamp@, entries[i].timestamp@) && b.label@
            == lane.name() && b.sample_count == entries.filter(lane.held()).len() && window_view(
            b.last_day,
        ) == rise_window(entries, entries.last().timestamp@, 1, lane) && window_view(b.last_week)
            == rise_window(entries, entries.last().timestamp@, 7, lane),
{
    let end = entries.len() - 1;
    lemma_comparable_before(entries, lane, end);
    assert(comparable(entries, lane, i));
    if let Some(k) = comparable_before(entries, lane, end) {
        if k > i {
            assert(lane.value(entries[k]) is Some);
        }
    }
}

/// Some earlier record that can be compared is enough for a trend.
pub proof fn law_any_comparable_record_makes_a_trend(
    entries: Seq<UsageLogSample>,
    lane: Lane,
    i: int,
)
    requires
        0 <= i < entries.len() - 1,
        lane.value(entries.last()) is Some,
        lane.value(entries[i]) is Some,
        seconds_since(entries.last().timestamp@, entries[i].timestamp@) >= 30,
    ensures
        trend_basis(entries, lane) matches Some(b) && lane.value(entries.last()) == Some(b.latest),
{
    lemma_comparable_before(entries, lane, entries.len() - 1);
    assert(comparable(entries, lane, i));
}

/// There is no trend where the last record does not hold the percentage, or no earlier record that
/// is half a minute older does.
pub proof fn law_trend_needs_a_comparable_record(entries: Seq<UsageLogSample>, lane: Lane)
    requires
        entries.len() == 0 || lane.value(entries.last()) is None || forall|j: int|
            0 <= j < entries.len() - 1 ==> lane.value(#[trigger] entries[j]) is None
                || seconds_since(entries.last().timestamp@, entries[j].timestamp@) < 30,
    ensures
        trend_basis(entries, lane) is None,
{
    if entries.len() > 0 && lane.value(entries.last()) is Some {
        lemma_comparable_before(entries, lane, entries.len() - 1);
        if let Some(k) = comparable_before(entries, lane, entries.len() - 1) {
            assert(lane.value(entries[k]) is Some);
        }
    }
}

/// A record holds a percentage exactly if it is there.
pub proof fn law_held_percentages_are_there(entry: UsageLogSample, lane: Lane)
    ensures
        (lane.held())(entry) <==> lane.value(entry) is Some,
{
}

/// All percentages that have a trend are summarized, each once: the session's before the week's,
/// and the model's last.
pub proof fn law_trends_are_all_there(entries: Seq<UsageLogSample>, list: Seq<TrendBasis>)
    requires
        basis_views(list) == trend_bases(entries),
    ensures
        ({
            let s = trend_basis(entries, Lane::Session);
            let w = trend_basis(entries, Lane::Weekly);
            let m = trend_basis(entries, Lane::Model);
            let before_week: int = if s is Some {
                1
            } else {
                0
            };
            let before_model: int = before_week + if w is Some {
                1int
            } else {
                0
            };
            &&& list.len() == before_model + if m is Some {
                1int
            } else {
                0
            }
            &&& s is Some ==> list[0]@ == s->0
            &&& w is Some ==> list[before_week]@ == w->0
            &&& m is Some ==> list[before_model]@ == m->0
        }),
{
    let shown = basis_views(list);
    assert(shown.len() == list.len());
    assert(forall|i: int| 0 <= i < list.len() ==> shown[i] == (#[trigger] list[i])@);
}

/// A record of the same account that is half a minute old or older, and not over thirty days, counts
/// for a sample: with both holding a percentage, the sample has a trend, whether the percentage
/// rose or was reset.
pub proof fn law_history_makes_a_trend(
    records: Seq<UsageLogSample>,
    sample: UsageLogSample,
    i: int,
    lane: Lane,
)
    requires
        0 <= i < records.len(),
        records[i].provider@ == sample.provider@,
        match (records[i].account, sample.account) {
            (Some(a), Some(b)) => a@ == b@,
            (None, None) => true,
            _ => false,
        },
        at_or_after(records[i].timestamp@, days_back(sample.timestamp@, 30)),
        at_or_after(sample.timestamp@, records[i].timestamp@),
        seconds_since(sample.timestamp@, records[i].timestamp@) >= 30,
        lane.value(records[i]) is Some,
        lane.value(sample) is Some,
    ensures
        trend_basis(timeline(records.filter(relevant_to(sample)), sample), lane) matches Some(b)
            && lane.value(sample) == Some(b.latest) && b.elapsed_seconds >= 30,
{
    let p = relevant_to(sample);
    let history = records.filter(p);
    let entries = timeline(history, sample);
    assert(relevant(sample, records[i]));
    records.lemma_filter_contains(p, i);
    law_timeline_is_in_order(history, sample);
    law_timeline(records, sample, entries);
    let all = history.push(sample);
    let k = choose|k: int| 0 <= k < history.len() && history[k] == records[i];
    assert(all[k] == records[i]);
    assert(all.contains(records[i]));
    vstd::seq_lib::to_multiset_contains(all, records[i]);
    vstd::seq_lib::to_multiset_contains(entries, records[i]);
    let j = choose|j: int| 0 <= j < entries.len() && entries[j] == records[i];
    assert(seconds_since(sample.timestamp@, sample.timestamp@) == 0);
    if j == entries.len() - 1 {
        assert(entries.last() == records[i]);
    }
    law_any_comparable_record_makes_a_trend(entries, lane, j);
    law_trend_needs_two_records(entries, lane);
}

/// A verdict without a pace, or on what is no number: a fall counts as a reset even without an
/// average; a change that is no number is no fall; and an excess that is none is steady.
pub proof fn law_verdicts_without_numbers(delta: Binary64, pace: Pace)
    ensures
        comparison(delta, None) is ResetOrDrop <==> delta.below(number(0xBFB9_9999_9999_999A)),
        comparison(delta, None) is Insufficient <==> !delta.below(
            number(0xBFB9_9999_9999_999A),
        ),
        comparison(delta, Some(pace)) is ResetOrDrop <==> delta.below(
            number(0xBFB9_9999_9999_999A),
        ),
        delta.nan() ==> !(comparison(delta, Some(pace)) is ResetOrDrop),
        delta.nan() && pace.excess_per_day.nan() ==> comparison(delta, Some(pace)) is Steady,
        !(comparison(delta, Some(pace)) is Insufficient),
{
}

/// The tolerance of an average that is no number is one, and that of an infinite one is infinite.
pub proof fn law_tolerance_without_numbers(average: Binary64)
    ensures
        average.nan() ==> tolerance(average).value() == whole(1),
        !average.nan() && !average.finite() ==> tolerance(average) == number(
            0x7FF0_0000_0000_0000,
        ),
{
    lemma_constants();
}

/// A positive change stands for itself as a pace, and what is no number for none.
pub proof fn law_positive_pace_is_kept(per_hour: Binary64)
    ensures
        !per_hour.nan() && per_hour.value() > 0 ==> forward(per_hour) == per_hour,
        per_hour.nan() ==> forward(per_hour).value() == 0,
{
    lemma_constants();
}

/// Each figure counts exactly if its own window is there, and is then taken as it is.
pub proof fn law_figures_by_window(basis: TrendBasis, figures: TrendFigures)
    ensures
        basis.last_day is Some ==> day_average(basis, figures) == figures.average_per_day_24h,
        basis.last_day is None ==> day_average(basis, figures) is None,
        basis.last_week is Some ==> week_pace(basis, figures) == figures.pace_7d,
        basis.last_week is None ==> week_pace(basis, figures) is None,
{
}

/// A trend can be read exactly if a week before the last record is on the calendar, or there is no
/// trend to read.
pub proof fn law_trend_needs_a_week(entries: Seq<UsageLogSample>, lane: Lane)
    ensures
        trend_basis(entries, lane) is None ==> has_trend_window(entries, lane),
        trend_basis(entries, lane) is Some ==> (has_trend_window(entries, lane) <==> days_back(
            entries.last().timestamp@,
            7,
        ).0 >= -8_334_601_228_800),
{
}

/// A basis is shown by all of its fields, and none as none.
pub proof fn law_basis_by_fields(basis: TrendBasis)
    ensures
        basis_view(Some(basis)) matches Some(v) && v.label == basis.label@ && v.latest
            == basis.latest && v.previous == basis.previous && v.elapsed_seconds
            == basis.elapsed_seconds && v.last_day == window_view(basis.last_day) && v.last_week
            == window_view(basis.last_week) && v.sample_count == basis.sample_count,
        basis_view(None) is None,
{
}

} // verus!
