//! Recording a sample and summarizing the trends up to it, step by step.
//!
//! Whoever runs the steps does what a state asks for and hands back what came of it.

use vstd::prelude::*;

use crate::binary64::Binary64;
use crate::text::lines;
use crate::timestamp::{at_or_after, days_back, seconds_since};
use crate::usage_log::history::{
    distinct_instants, has_history_window, last_relevant_tokens, load_relevant_entries,
    reaches_back, relevant, relevant_to,
};
use crate::usage_log::reading::{
    history_in, law_permuted_lines_hold_the_same_records, records_of,
};
use crate::usage_log::sample::{
    counted_from, hydratable, hydrate_codex_token_delta, hydrated, last_tokens,
    token_differences_fit, UsageLogSample,
};
use crate::usage_log::trend::{
    basis_views, law_history_makes_a_trend, law_no_history_no_trends,
    law_place_in_log_does_not_matter, law_trends_are_all_there, summarize_usage, timeline,
    trend_bases, Lane, TrendBasis,
};

verus! {

/// How far a sample has come.
#[derive(Debug)]
pub enum LogState {
    /// Waits for the records of the log, to count token deltas from.
    Hydrating { sample: UsageLogSample },
    /// Waits for the sample to be recorded.
    Appending { sample: UsageLogSample },
    /// Waits for the records of the log, to read trends from.
    Summarizing { sample: UsageLogSample },
    /// Has come to an end.
    Done { trends: Vec<TrendBasis> },
}

/// What to do next.
#[derive(Debug, Clone, Copy)]
pub enum LogAction<'a> {
    /// Read the log.
    Read,
    /// Append a record.
    Append(&'a UsageLogSample),
    /// Nothing more.
    Stop,
}

/// What came of it.
#[derive(Debug)]
pub enum LogEvent {
    /// The records of the log.
    Records(Vec<UsageLogSample>),
    /// There is no log that could be read.
    Unreadable,
    /// The record was appended, or why not.
    Appended(Result<(), String>),
}

/// The records that bear on a sample, of those that were read.
pub open spec fn history_of(event: LogEvent, sample: UsageLogSample) -> Seq<UsageLogSample> {
    match event {
        LogEvent::Records(records) => records@.filter(relevant_to(sample)),
        _ => Seq::empty(),
    }
}

/// Whether a state can take an event: to choose among records, the calendar must reach back far
/// enough from the sample, and token deltas must not overflow.
pub open spec fn acceptable(state: LogState, event: LogEvent) -> bool {
    event is Records ==> match state {
        LogState::Hydrating { sample } => has_history_window(sample) && hydratable(
            sample,
            history_of(event, sample),
        ),
        LogState::Summarizing { sample } => has_history_window(sample),
        _ => true,
    }
}

/// Whether `event` is what a state waits for.
pub open spec fn awaits(state: LogState, event: LogEvent) -> bool {
    match state {
        LogState::Hydrating { .. } => event is Records || event is Unreadable,
        LogState::Appending { .. } => event is Appended,
        LogState::Summarizing { .. } => event is Records || event is Unreadable,
        LogState::Done { .. } => false,
    }
}

/// Whether `next` is the state that follows. The token deltas are counted first; a sample with a
/// known percentage is then recorded; and whatever came of that, the trends are read.
pub open spec fn follows(state: LogState, event: LogEvent, next: LogState) -> bool {
    if !awaits(state, event) {
        next == state
    } else {
        match state {
            LogState::Hydrating { sample } => {
                let counted = hydrated(sample, history_of(event, sample));
                if sample.any_percent() {
                    next == (LogState::Appending { sample: counted })
                } else {
                    next == (LogState::Summarizing { sample: counted })
                }
            },
            LogState::Appending { sample } => next == (LogState::Summarizing { sample }),
            LogState::Summarizing { sample } => {
                next matches LogState::Done { trends } && basis_views(trends@) == trend_bases(
                    timeline(history_of(event, sample), sample),
                )
            },
            LogState::Done { .. } => false,
        }
    }
}

/// How many steps are left at most.
pub open spec fn steps_left(state: LogState) -> nat {
    match state {
        LogState::Hydrating { .. } => 3,
        LogState::Appending { .. } => 2,
        LogState::Summarizing { .. } => 1,
        LogState::Done { .. } => 0,
    }
}

/// Starts recording a sample and summarizing the trends up to it.
pub fn append_and_summarize_usage(sample: UsageLogSample) -> (res: LogState)
    ensures
        res == (LogState::Hydrating { sample }),
{
    LogState::Hydrating { sample }
}

impl LogState {
    /// What to do next.
    pub fn action(&self) -> (res: LogAction<'_>)
        ensures
            match *self {
                LogState::Hydrating { .. } => res is Read,
                LogState::Appending { sample } => res == LogAction::Append(&sample),
                LogState::Summarizing { .. } => res is Read,
                LogState::Done { .. } => res is Stop,
            },
    {
        match self {
            LogState::Hydrating { .. } => LogAction::Read,
            LogState::Appending { sample } => LogAction::Append(sample),
            LogState::Summarizing { .. } => LogAction::Read,
            LogState::Done { .. } => LogAction::Stop,
        }
    }

    /// Whether the state can take an event.
    pub fn can_take(&self, event: &LogEvent) -> (res: bool)
        ensures
            res == acceptable(*self, *event),
    {
        let records = match event {
            LogEvent::Records(records) => records,
            _ => {
                return true;
            },
        };
        match self {
            LogState::Hydrating { sample } => {
                if !reaches_back(sample) {
                    return false;
                }
                match (&sample.codex_tokens, last_relevant_tokens(records, sample)) {
                    (Some(current), Some(i)) => match &records[i].codex_tokens {
                        Some(previous) => token_differences_fit(current, previous),
                        None => true,
                    },
                    _ => true,
                }
            },
            LogState::Summarizing { sample } => reaches_back(sample),
            _ => true,
        }
    }

    /// The state that a sample goes to once its token deltas are counted.
    fn counted(sample: UsageLogSample) -> (res: LogState)
        ensures
            res == (if sample.any_percent() {
                LogState::Appending { sample }
            } else {
                LogState::Summarizing { sample }
            }),
    {
        if sample.has_usage() {
            LogState::Appending { sample }
        } else {
            LogState::Summarizing { sample }
        }
    }

    /// The state that follows. What a state does not wait for leaves it as it is.
    pub fn step(self, event: LogEvent) -> (res: LogState)
        requires
            acceptable(self, event),
        ensures
            follows(self, event, res),
    {
        match (self, event) {
            (LogState::Hydrating { sample }, LogEvent::Records(records)) => {
                let mut sample = sample;
                let history = load_relevant_entries(records, &sample);
                hydrate_codex_token_delta(&mut sample, &history);
                LogState::counted(sample)
            },
            (LogState::Hydrating { sample }, LogEvent::Unreadable) => LogState::counted(sample),
            (LogState::Appending { sample }, LogEvent::Appended(_)) => LogState::Summarizing {
                sample,
            },
            (LogState::Summarizing { sample }, LogEvent::Records(records)) => LogState::Done {
                trends: summarize_usage(sample, records),
            },
            (LogState::Summarizing { sample }, LogEvent::Unreadable) => {
                let trends: Vec<TrendBasis> = Vec::new();
                proof {
                    law_no_history_no_trends(sample);
                    assert(basis_views(trends@) =~= Seq::empty());
                }
                LogState::Done { trends }
            },
            (state, _) => state,
        }
    }
}

/// Every step that answers what a state waits for brings the end closer, so that a sample is
/// done with after three steps at most.
pub proof fn law_samples_are_done_with(state: LogState, event: LogEvent, next: LogState)
    requires
        awaits(state, event),
        follows(state, event, next),
    ensures
        steps_left(next) < steps_left(state),
        steps_left(next) == 0 <==> next is Done,
{
}

/// Once a sample with tokens is recorded, the deltas of the next sample that it bears on are
/// counted from it, whatever was recorded before.
pub proof fn law_next_sample_counts_from_recorded(
    records: Seq<UsageLogSample>,
    recorded: UsageLogSample,
    sample: UsageLogSample,
)
    requires
        relevant(sample, recorded),
        recorded.codex_tokens is Some,
    ensures
        last_tokens(records.push(recorded).filter(relevant_to(sample))) == recorded.codex_tokens,
        sample.codex_tokens is Some ==> hydrated(
            sample,
            records.push(recorded).filter(relevant_to(sample)),
        ).codex_tokens == Some(
            counted_from(sample.codex_tokens->0, recorded.codex_tokens->0),
        ),
{
    records.lemma_filter_push(recorded, relevant_to(sample));
}

/// The trends of a sample are the same over two logs that hold the same lines in different orders,
/// if the records that bear on the sample are of distinct instants.
pub proof fn law_line_order_does_not_matter(
    a: Seq<char>,
    b: Seq<char>,
    read: spec_fn(Seq<char>) -> Option<UsageLogSample>,
    sample: UsageLogSample,
)
    requires
        lines(a).to_multiset() == lines(b).to_multiset(),
        distinct_instants(history_in(a, read, sample)),
    ensures
        trend_bases(timeline(history_in(a, read, sample), sample)) == trend_bases(
            timeline(history_in(b, read, sample), sample),
        ),
{
    law_permuted_lines_hold_the_same_records(lines(a), lines(b), read);
    law_place_in_log_does_not_matter(
        records_of(lines(a), read),
        records_of(lines(b), read),
        sample,
    );
}

/// Only a sample with a known percentage is ever recorded, and whether that succeeds makes no
/// difference to the state that follows.
pub proof fn law_failed_append_is_no_end(
    sample: UsageLogSample,
    read: LogEvent,
    appended: LogEvent,
    next: LogState,
    after: LogState,
)
    requires
        awaits((LogState::Hydrating { sample }), read),
        follows((LogState::Hydrating { sample }), read, next),
        appended is Appended,
        follows(next, appended, after),
    ensures
        next is Appending <==> sample.any_percent(),
        after == (LogState::Summarizing { sample: hydrated(sample, history_of(read, sample)) }),
{
}

/// A sample is recorded as it is, but for the deltas of its tokens; whether it is recorded goes by
/// its percentages alone; and without a log that can be read nothing of it changes.
pub proof fn law_sample_is_kept_on_the_way(sample: UsageLogSample, read: LogEvent, next: LogState)
    requires
        read is Records || read is Unreadable,
        follows((LogState::Hydrating { sample }), read, next),
    ensures
        ({
            let recorded = sample.session_percent is Some || sample.weekly_percent is Some
                || sample.model_percent is Some;
            &&& recorded ==> next is Appending
            &&& !recorded ==> next is Summarizing
            &&& read is Unreadable && recorded ==> next == (LogState::Appending { sample })
            &&& read is Unreadable && !recorded ==> next == (LogState::Summarizing { sample })
        }),
        next matches LogState::Appending { sample: s } ==> {
            &&& s.timestamp == sample.timestamp
            &&& s.provider == sample.provider
            &&& s.account == sample.account
            &&& s.source_label == sample.source_label
            &&& s.plan == sample.plan
            &&& s.model_name == sample.model_name
            &&& s.session_percent == sample.session_percent
            &&& s.weekly_percent == sample.weekly_percent
            &&& s.model_percent == sample.model_percent
            &&& s.codex_tokens is Some <==> sample.codex_tokens is Some
        },
{
    assert(Seq::<UsageLogSample>::empty() =~= history_of(LogEvent::Unreadable, sample));
}

/// The deltas of a recorded sample are counted from the last record of its history in the log that
/// was read.
pub proof fn law_deltas_come_from_the_log(
    sample: UsageLogSample,
    records: Vec<UsageLogSample>,
    next: LogState,
)
    requires
        follows((LogState::Hydrating { sample }), LogEvent::Records(records), next),
    ensures
        next matches LogState::Appending { sample: s } ==> s == hydrated(
            sample,
            records@.filter(relevant_to(sample)),
        ),
        next matches LogState::Summarizing { sample: s } ==> s == hydrated(
            sample,
            records@.filter(relevant_to(sample)),
        ),
{
}

/// The trends of a sample are those of the records that bear on it in the log that was read, and
/// the sample; and there are none without a log that can be read.
pub proof fn law_trends_come_from_the_log(
    sample: UsageLogSample,
    records: Vec<UsageLogSample>,
    next: LogState,
    unread: LogState,
)
    requires
        follows((LogState::Summarizing { sample }), LogEvent::Records(records), next),
        follows((LogState::Summarizing { sample }), LogEvent::Unreadable, unread),
    ensures
        next matches LogState::Done { trends } && basis_views(trends@) == trend_bases(
            timeline(records@.filter(relevant_to(sample)), sample),
        ),
        unread matches LogState::Done { trends } && trends@.len() == 0,
{
    law_no_history_no_trends(sample);
    if let LogState::Done { trends } = unread {
        assert(basis_views(trends@).len() == trends@.len());
    }
}

/// A record of the same account that is half a minute old or older, and not over thirty days, gives
/// a sample with a session percentage a primary trend, first in the list, whichever way the
/// percentage went.
pub proof fn law_history_is_summarized(
    sample: UsageLogSample,
    records: Vec<UsageLogSample>,
    i: int,
    latest: Binary64,
    next: LogState,
)
    requires
        follows((LogState::Summarizing { sample }), LogEvent::Records(records), next),
        0 <= i < records@.len(),
        records@[i].provider@ == sample.provider@,
        match (records@[i].account, sample.account) {
            (Some(a), Some(b)) => a@ == b@,
            (None, None) => true,
            _ => false,
        },
        at_or_after(records@[i].timestamp@, days_back(sample.timestamp@, 30)),
        at_or_after(sample.timestamp@, records@[i].timestamp@),
        seconds_since(sample.timestamp@, records@[i].timestamp@) >= 30,
        records@[i].session_percent is Some,
        sample.session_percent == Some(latest),
    ensures
        next matches LogState::Done { trends } && trends@.len() > 0 && trends@[0].label@
            == "Primary"@ && trends@[0].latest == latest && trends@[0].elapsed_seconds >= 30,
{
    law_history_makes_a_trend(records@, sample, i, Lane::Session);
    if let LogState::Done { trends } = next {
        let entries = timeline(records@.filter(relevant_to(sample)), sample);
        law_trends_are_all_there(entries, trends@);
    }
}

/// What a state does not wait for leaves it as it is, and an end waits for nothing.
pub proof fn law_recording_waits(state: LogState, event: LogEvent, next: LogState)
    requires
        follows(state, event, next),
        match state {
            LogState::Hydrating { .. } => event is Appended,
            LogState::Appending { .. } => !(event is Appended),
            LogState::Summarizing { .. } => event is Appended,
            LogState::Done { .. } => true,
        },
    ensures
        next == state,
{
}

/// Every event can be taken but records that the calendar or the range of the totals cannot serve.
pub proof fn law_what_can_be_taken(sample: UsageLogSample, records: Vec<UsageLogSample>)
    ensures
        forall|state: LogState, event: LogEvent|
            !(event is Records) ==> #[trigger] acceptable(state, event),
        acceptable((LogState::Appending { sample }), LogEvent::Records(records)),
        acceptable((LogState::Summarizing { sample }), LogEvent::Records(records)) <==> days_back(
            sample.timestamp@,
            30,
        ).0 >= -8_334_601_228_800,
        sample.codex_tokens is None ==> (acceptable(
            (LogState::Hydrating { sample }),
            LogEvent::Records(records),
        ) <==> days_back(sample.timestamp@, 30).0 >= -8_334_601_228_800),
{
}

} // verus!
