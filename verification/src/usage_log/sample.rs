//! What one record of the usage log holds.

use std::collections::HashMap;

use vstd::prelude::*;

use crate::binary64::Binary64;
use crate::timestamp::Timestamp;

verus! {

/// How much of a provider's quota was used at one point in time.
#[derive(Debug, Clone)]
pub struct UsageLogSample {
    pub timestamp: Timestamp,
    pub provider: String,
    pub account: Option<String>,
    pub source_label: Option<String>,
    pub plan: Option<String>,
    pub model_name: Option<String>,
    pub session_percent: Option<Binary64>,
    pub weekly_percent: Option<Binary64>,
    pub model_percent: Option<Binary64>,
    pub codex_tokens: Option<CodexTokenLogSample>,
}

/// Tokens that Codex has counted: running totals, and what they grew by since the sample before.
#[derive(Debug, Clone)]
pub struct CodexTokenLogSample {
    pub last_model: Option<String>,
    pub input_tokens_total: i64,
    pub cached_tokens_total: i64,
    pub output_tokens_total: i64,
    pub total_tokens_total: i64,
    pub input_tokens_delta: i64,
    pub cached_tokens_delta: i64,
    pub output_tokens_delta: i64,
    pub total_tokens_delta: i64,
    pub by_model_total: HashMap<String, CodexTokenModelLogTotals>,
}

/// Token totals of one model.
#[derive(Debug, Clone)]
pub struct CodexTokenModelLogTotals {
    pub input_tokens: i64,
    pub cached_tokens: i64,
    pub output_tokens: i64,
    pub total_tokens: i64,
}

impl UsageLogSample {
    /// Whether any of the three percentages is known.
    pub open spec fn any_percent(self) -> bool {
        self.session_percent is Some || self.weekly_percent is Some || self.model_percent is Some
    }

    /// Whether any of the three percentages is known. Only such a sample is worth a record.
    pub fn has_usage(&self) -> (res: bool)
        ensures
            res == self.any_percent(),
    {
        self.session_percent.is_some() || self.weekly_percent.is_some()
            || self.model_percent.is_some()
    }
}

/// The tokens of the last record that has any.
pub open spec fn last_tokens(history: Seq<UsageLogSample>) -> Option<CodexTokenLogSample>
    decreases history.len(),
{
    if history.len() == 0 {
        None
    } else if history.last().codex_tokens is Some {
        history.last().codex_tokens
    } else {
        last_tokens(history.drop_last())
    }
}

/// What a running total grew by: nothing, where it fell.
pub open spec fn growth(current: i64, previous: i64) -> i64 {
    if current > previous {
        (current - previous) as i64
    } else {
        0
    }
}

/// Whether the difference of two totals is itself an `i64`.
pub open spec fn difference_fits(current: i64, previous: i64) -> bool {
    i64::MIN <= current - previous <= i64::MAX
}

/// Whether the differences of all four totals fit.
pub open spec fn differences_fit(
    current: CodexTokenLogSample,
    previous: CodexTokenLogSample,
) -> bool {
    &&& difference_fits(current.input_tokens_total, previous.input_tokens_total)
    &&& difference_fits(current.cached_tokens_total, previous.cached_tokens_total)
    &&& difference_fits(current.output_tokens_total, previous.output_tokens_total)
    &&& difference_fits(current.total_tokens_total, previous.total_tokens_total)
}

/// `current` with its deltas counted from `previous`.
pub open spec fn counted_from(
    current: CodexTokenLogSample,
    previous: CodexTokenLogSample,
) -> CodexTokenLogSample {
    CodexTokenLogSample {
        input_tokens_delta: growth(current.input_tokens_total, previous.input_tokens_total),
        cached_tokens_delta: growth(current.cached_tokens_total, previous.cached_tokens_total),
        output_tokens_delta: growth(current.output_tokens_total, previous.output_tokens_total),
        total_tokens_delta: growth(current.total_tokens_total, previous.total_tokens_total),
        ..current
    }
}

/// Whether the deltas of `sample` can be counted from `history` without overflow.
pub open spec fn hydratable(sample: UsageLogSample, history: Seq<UsageLogSample>) -> bool {
    sample.codex_tokens is Some && last_tokens(history) is Some ==> differences_fit(
        sample.codex_tokens->0,
        last_tokens(history)->0,
    )
}

/// `sample` with its token deltas counted from the last record of `history` that has tokens.
/// Nothing else changes, and nothing at all if there is no such record or the sample has no
/// tokens.
pub open spec fn hydrated(
    sample: UsageLogSample,
    history: Seq<UsageLogSample>,
) -> UsageLogSample {
    match (sample.codex_tokens, last_tokens(history)) {
        (Some(current), Some(previous)) => UsageLogSample {
            codex_tokens: Some(counted_from(current, previous)),
            ..sample
        },
        _ => sample,
    }
}

/// The index of the last record that has tokens.
fn last_tokens_index(history: &Vec<UsageLogSample>) -> (res: Option<usize>)
    ensures
        res is None <==> last_tokens(history@) is None,
        res matches Some(i) ==> i < history@.len() && history@[i as int].codex_tokens
            == last_tokens(history@),
{
    let mut left: usize = history.len();
    assert(history@.take(left as int) =~= history@);
    while left > 0
        invariant
            left <= history@.len(),
            last_tokens(history@) == last_tokens(history@.take(left as int)),
        decreases left,
    {
        assert(history@.take(left as int).drop_last() =~= history@.take(left - 1));
        assert(history@.take(left as int).last() == history@[left - 1]);
        left = left - 1;
        if history[left].codex_tokens.is_some() {
            return Some(left);
        }
    }
    None
}

/// What a running total grew by.
fn grown_by(current: i64, previous: i64) -> (res: i64)
    requires
        difference_fits(current, previous),
    ensures
        res == growth(current, previous),
{
    let difference: i64 = current - previous;
    if difference > 0 {
        difference
    } else {
        0
    }
}

/// Whether `current - previous` is itself an `i64`.
fn difference_is_i64(current: i64, previous: i64) -> (res: bool)
    ensures
        res == difference_fits(current, previous),
{
    current.checked_sub(previous).is_some()
}

/// Whether the differences of all four totals fit.
pub fn token_differences_fit(
    current: &CodexTokenLogSample,
    previous: &CodexTokenLogSample,
) -> (res: bool)
    ensures
        res == differences_fit(*current, *previous),
{
    difference_is_i64(current.input_tokens_total, previous.input_tokens_total)
        && difference_is_i64(current.cached_tokens_total, previous.cached_tokens_total)
        && difference_is_i64(current.output_tokens_total, previous.output_tokens_total)
        && difference_is_i64(current.total_tokens_total, previous.total_tokens_total)
}

/// Counts the token deltas of `sample` from the last record of `history` that has tokens.
pub fn hydrate_codex_token_delta(sample: &mut UsageLogSample, history: &Vec<UsageLogSample>)
    requires
        hydratable(*old(sample), history@),
    ensures
        *final(sample) == hydrated(*old(sample), history@),
{
    let i: usize = match last_tokens_index(history) {
        Some(i) => i,
        None => {
            return;
        },
    };
    if let Some(previous) = &history[i].codex_tokens {
        if let Some(current) = sample.codex_tokens.as_mut() {
            current.input_tokens_delta =
            grown_by(current.input_tokens_total, previous.input_tokens_total);
            current.cached_tokens_delta =
            grown_by(current.cached_tokens_total, previous.cached_tokens_total);
            current.output_tokens_delta =
            grown_by(current.output_tokens_total, previous.output_tokens_total);
            current.total_tokens_delta =
            grown_by(current.total_tokens_total, previous.total_tokens_total);
        }
    }
}

/// Token deltas that were counted from a record are never negative, and where a total did not
/// fall they are exactly what it grew by.
pub proof fn law_deltas_count_growth(sample: UsageLogSample, history: Seq<UsageLogSample>)
    requires
        sample.codex_tokens is Some,
        last_tokens(history) is Some,
        hydratable(sample, history),
    ensures
        ({
            let after = hydrated(sample, history).codex_tokens->0;
            let before = last_tokens(history)->0;
            &&& after.input_tokens_delta >= 0
            &&& after.cached_tokens_delta >= 0
            &&& after.output_tokens_delta >= 0
            &&& after.total_tokens_delta >= 0
            &&& after.input_tokens_total >= before.input_tokens_total
                ==> before.input_tokens_total + after.input_tokens_delta
                == after.input_tokens_total
            &&& after.cached_tokens_total >= before.cached_tokens_total
                ==> before.cached_tokens_total + after.cached_tokens_delta
                == after.cached_tokens_total
            &&& after.output_tokens_total >= before.output_tokens_total
                ==> before.output_tokens_total + after.output_tokens_delta
                == after.output_tokens_total
            &&& after.total_tokens_total >= before.total_tokens_total
                ==> before.total_tokens_total + after.total_tokens_delta
                == after.total_tokens_total
        }),
{
}

/// Counting the deltas a second time from the same history changes nothing more.
pub proof fn law_hydration_is_idempotent(sample: UsageLogSample, history: Seq<UsageLogSample>)
    ensures
        hydrated(hydrated(sample, history), history) == hydrated(sample, history),
{
}

/// A sample is worth a record exactly if it holds one of its percentages, whichever, and nothing
/// else of it counts.
pub proof fn law_any_percentage_is_usage(sample: UsageLogSample)
    ensures
        sample.any_percent() <==> !(sample.session_percent is None && sample.weekly_percent is None
            && sample.model_percent is None),
{
}

/// The tokens that count are those of the last record that has any, whatever the records after it
/// hold otherwise; and none, where no record has tokens.
pub proof fn law_last_tokens_are_the_last(history: Seq<UsageLogSample>, i: int)
    ensures
        0 <= i < history.len() && history[i].codex_tokens is Some && (forall|j: int|
            i < j < history.len() ==> (#[trigger] history[j]).codex_tokens is None) ==> last_tokens(
            history,
        ) == history[i].codex_tokens,
        (forall|j: int| 0 <= j < history.len() ==> (#[trigger] history[j]).codex_tokens is None)
            ==> last_tokens(history) is None,
    decreases history.len(),
{
    if history.len() > 0 {
        let head = history.drop_last();
        assert(forall|j: int| 0 <= j < head.len() ==> head[j] == history[j]);
        law_last_tokens_are_the_last(head, i);
        assert(history.last() == history[history.len() - 1]);
        if history.last().codex_tokens is None {
            if 0 <= i < history.len() && history[i].codex_tokens is Some {
                assert(i < head.len());
                assert(head[i] == history[i]);
            }
        }
    }
}

/// Counting changes the four deltas of a sample's tokens and nothing else: each is what its own
/// total has above that of the record before, or none where it has nothing above it.
pub proof fn law_counting_by_fields(
    sample: UsageLogSample,
    history: Seq<UsageLogSample>,
    i: int,
    current: CodexTokenLogSample,
    previous: CodexTokenLogSample,
)
    requires
        hydratable(sample, history),
        sample.codex_tokens == Some(current),
        0 <= i < history.len(),
        history[i].codex_tokens == Some(previous),
        forall|j: int| i < j < history.len() ==> (#[trigger] history[j]).codex_tokens is None,
    ensures
        ({
            let after = hydrated(sample, history);
            &&& after.timestamp == sample.timestamp
            &&& after.provider == sample.provider
            &&& after.account == sample.account
            &&& after.source_label == sample.source_label
            &&& after.plan == sample.plan
            &&& after.model_name == sample.model_name
            &&& after.session_percent == sample.session_percent
            &&& after.weekly_percent == sample.weekly_percent
            &&& after.model_percent == sample.model_percent
            &&& after.codex_tokens is Some
        }),
        ({
            let t = hydrated(sample, history).codex_tokens->0;
            &&& t.last_model == current.last_model
            &&& t.by_model_total == current.by_model_total
            &&& t.input_tokens_total == current.input_tokens_total
            &&& t.cached_tokens_total == current.cached_tokens_total
            &&& t.output_tokens_total == current.output_tokens_total
            &&& t.total_tokens_total == current.total_tokens_total
            &&& t.input_tokens_delta == (if current.input_tokens_total
                > previous.input_tokens_total {
                current.input_tokens_total - previous.input_tokens_total
            } else {
                0
            })
            &&& t.cached_tokens_delta == (if current.cached_tokens_total
                > previous.cached_tokens_total {
                current.cached_tokens_total - previous.cached_tokens_total
            } else {
                0
            })
            &&& t.output_tokens_delta == (if current.output_tokens_total
                > previous.output_tokens_total {
                current.output_tokens_total - previous.output_tokens_total
            } else {
                0
            })
            &&& t.total_tokens_delta == (if current.total_tokens_total
                > previous.total_tokens_total {
                current.total_tokens_total - previous.total_tokens_total
            } else {
                0
            })
        }),
{
    law_last_tokens_are_the_last(history, i);
}

/// A sample without tokens, or without a record that has any, stays as it is.
pub proof fn law_nothing_to_count(sample: UsageLogSample, history: Seq<UsageLogSample>)
    requires
        sample.codex_tokens is None || forall|j: int|
            0 <= j < history.len() ==> (#[trigger] history[j]).codex_tokens is None,
    ensures
        hydrated(sample, history) == sample,
        hydratable(sample, history),
{
    law_last_tokens_are_the_last(history, 0);
}

/// Deltas can be counted exactly if each of the four differences lies in the range of an `i64`; so
/// always where the totals are not negative.
pub proof fn law_differences_by_range(current: CodexTokenLogSample, previous: CodexTokenLogSample)
    ensures
        differences_fit(current, previous) <==> {
            &&& -0x8000_0000_0000_0000 <= current.input_tokens_total - previous.input_tokens_total
                <= 0x7FFF_FFFF_FFFF_FFFF
            &&& -0x8000_0000_0000_0000 <= current.cached_tokens_total
                - previous.cached_tokens_total <= 0x7FFF_FFFF_FFFF_FFFF
            &&& -0x8000_0000_0000_0000 <= current.output_tokens_total
                - previous.output_tokens_total <= 0x7FFF_FFFF_FFFF_FFFF
            &&& -0x8000_0000_0000_0000 <= current.total_tokens_total - previous.total_tokens_total
                <= 0x7FFF_FFFF_FFFF_FFFF
        },
        current.input_tokens_total >= 0 && previous.input_tokens_total >= 0
            && current.cached_tokens_total >= 0 && previous.cached_tokens_total >= 0
            && current.output_tokens_total >= 0 && previous.output_tokens_total >= 0
            && current.total_tokens_total >= 0 && previous.total_tokens_total >= 0
            ==> differences_fit(current, previous),
{
}

} // verus!
