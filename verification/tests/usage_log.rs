use std::collections::HashMap;

use chrono::{DateTime, Duration, Timelike, Utc};
use codexbar::binary64::Binary64;
use codexbar::timestamp::{Timestamp, MIN_SECS};
use codexbar::usage_log::history::{
    is_readable_size, last_relevant_tokens, load_relevant_entries, reaches_back, sort_by_time,
    HISTORY_DAYS, MAX_READ_BYTES,
};
use codexbar::text::split_lines;
use codexbar::usage_log::reading::readable_records;
use codexbar::usage_log::run::{append_and_summarize_usage, LogAction, LogEvent, LogState};
use codexbar::usage_log::sample::{
    hydrate_codex_token_delta, token_differences_fit, CodexTokenLogSample,
    CodexTokenModelLogTotals, UsageLogSample,
};
use codexbar::usage_log::trend::{
    average_positive_delta_per_day, compare_current_to_average, complete_summary, forward_pace,
    summarize_usage, trend_of, Lane, Pace, TrendFigures, UsageTrendComparison, DROP_THRESHOLD,
};

const NOW: i64 = 1_700_000_000;
const DAY: i64 = 86_400;

fn pattern(x: f64) -> Binary64 {
    Binary64 { bits: x.to_bits() }
}

fn number(x: Binary64) -> f64 {
    f64::from_bits(x.bits)
}

fn pairs(rises: &Vec<(Binary64, Binary64)>) -> Vec<(f64, f64)> {
    rises.iter().map(|(a, b)| (number(*a), number(*b))).collect()
}

fn sample(secs: i64, session: Option<f64>) -> UsageLogSample {
    UsageLogSample {
        timestamp: Timestamp::new(secs, 0).expect("on the calendar"),
        provider: "codex".to_string(),
        account: Some("me@example.com".to_string()),
        source_label: None,
        plan: None,
        model_name: None,
        session_percent: session.map(pattern),
        weekly_percent: None,
        model_percent: None,
        codex_tokens: None,
    }
}

fn tokens(input: i64, cached: i64, output: i64, total: i64) -> CodexTokenLogSample {
    let mut by_model_total = HashMap::new();
    by_model_total.insert(
        "gpt".to_string(),
        CodexTokenModelLogTotals {
            input_tokens: input,
            cached_tokens: cached,
            output_tokens: output,
            total_tokens: total,
        },
    );
    CodexTokenLogSample {
        last_model: Some("gpt".to_string()),
        input_tokens_total: input,
        cached_tokens_total: cached,
        output_tokens_total: output,
        total_tokens_total: total,
        input_tokens_delta: 7,
        cached_tokens_delta: 7,
        output_tokens_delta: 7,
        total_tokens_delta: 7,
        by_model_total,
    }
}

fn with_tokens(secs: i64, tokens: CodexTokenLogSample) -> UsageLogSample {
    UsageLogSample { codex_tokens: Some(tokens), ..sample(secs, None) }
}

fn deltas(s: &UsageLogSample) -> (i64, i64, i64, i64) {
    let t = s.codex_tokens.as_ref().expect("has tokens");
    (t.input_tokens_delta, t.cached_tokens_delta, t.output_tokens_delta, t.total_tokens_delta)
}

fn times(entries: &[UsageLogSample]) -> Vec<i64> {
    entries.iter().map(|e| e.timestamp.secs() - NOW).collect()
}

#[test]
fn usage_is_known_with_any_percentage() {
    assert!(!sample(NOW, None).has_usage());
    assert!(sample(NOW, Some(0.0)).has_usage());
    let weekly = UsageLogSample { weekly_percent: Some(pattern(1.0)), ..sample(NOW, None) };
    assert!(weekly.has_usage());
    let model = UsageLogSample { model_percent: Some(pattern(1.0)), ..sample(NOW, None) };
    assert!(model.has_usage());
}

#[test]
fn token_deltas_count_growth() {
    let history = vec![
        with_tokens(NOW - 30, tokens(1, 1, 1, 1)),
        with_tokens(NOW - 20, tokens(100, 50, 20, 170)),
        sample(NOW - 10, Some(1.0)),
    ];
    let mut s = with_tokens(NOW, tokens(130, 50, 10, 190));
    hydrate_codex_token_delta(&mut s, &history);
    assert_eq!(deltas(&s), (30, 0, 0, 20));
    let t = s.codex_tokens.as_ref().unwrap();
    assert_eq!(t.input_tokens_total, 130);
    assert_eq!(t.last_model.as_deref(), Some("gpt"));
    assert_eq!(t.by_model_total["gpt"].total_tokens, 190);
    hydrate_codex_token_delta(&mut s, &history);
    assert_eq!(deltas(&s), (30, 0, 0, 20));
}

#[test]
fn token_deltas_stay_without_a_record_to_count_from() {
    let mut s = with_tokens(NOW, tokens(130, 50, 10, 190));
    hydrate_codex_token_delta(&mut s, &vec![sample(NOW - 10, Some(1.0))]);
    assert_eq!(deltas(&s), (7, 7, 7, 7));
    let mut s = sample(NOW, Some(2.0));
    hydrate_codex_token_delta(&mut s, &vec![with_tokens(NOW - 5, tokens(1, 1, 1, 1))]);
    assert!(s.codex_tokens.is_none());
}

#[test]
fn token_differences_fit_or_overflow() {
    let low = tokens(0, 0, 0, -1);
    let high = tokens(0, 0, 0, i64::MAX);
    assert!(!token_differences_fit(&high, &low));
    assert!(token_differences_fit(&low, &high));
    assert!(token_differences_fit(&high, &tokens(0, 0, 0, 0)));
}

#[test]
fn history_is_of_the_same_account_and_the_last_thirty_days() {
    assert_eq!(HISTORY_DAYS, 30);
    let s = sample(NOW, Some(5.0));
    let other = UsageLogSample { provider: "cursor".to_string(), ..sample(NOW - 1, None) };
    let anonymous = UsageLogSample { account: None, ..sample(NOW - 2, None) };
    let records = vec![
        sample(NOW, None),
        sample(NOW - 30 * DAY, None),
        sample(NOW - 30 * DAY - 1, None),
        sample(NOW + 1, None),
        other,
        anonymous,
        sample(NOW - 60, None),
    ];
    assert_eq!(times(&load_relevant_entries(records, &s)), vec![0, -30 * DAY, -60]);
    let nobody = UsageLogSample { account: None, ..sample(NOW, None) };
    let records = vec![
        UsageLogSample { account: None, ..sample(NOW - 3, None) },
        UsageLogSample { account: Some(String::new()), ..sample(NOW - 4, None) },
    ];
    assert_eq!(times(&load_relevant_entries(records, &nobody)), vec![-3]);
}

#[test]
fn last_tokens_are_those_of_the_last_record_that_bears_on_the_sample() {
    let s = with_tokens(NOW, tokens(9, 9, 9, 9));
    let records = vec![
        with_tokens(NOW - 50, tokens(1, 1, 1, 1)),
        with_tokens(NOW - 90, tokens(2, 2, 2, 2)),
        sample(NOW - 10, None),
        with_tokens(NOW + 10, tokens(3, 3, 3, 3)),
    ];
    assert_eq!(last_relevant_tokens(&records, &s), Some(1));
    assert_eq!(last_relevant_tokens(&vec![sample(NOW - 10, None)], &s), None);
}

#[test]
fn records_are_ordered_by_time_and_keep_their_order_within_an_instant() {
    let mut entries = vec![
        sample(NOW + 2, Some(1.0)),
        sample(NOW, Some(2.0)),
        sample(NOW + 2, Some(3.0)),
        sample(NOW + 1, Some(4.0)),
        sample(NOW, Some(5.0)),
    ];
    let mut expected: Vec<(i64, f64)> = entries
        .iter()
        .map(|e| (e.timestamp.secs(), number(e.session_percent.unwrap())))
        .collect();
    expected.sort_by_key(|e| e.0);
    sort_by_time(&mut entries);
    let got: Vec<(i64, f64)> = entries
        .iter()
        .map(|e| (e.timestamp.secs(), number(e.session_percent.unwrap())))
        .collect();
    assert_eq!(got, expected);
    sort_by_time(&mut entries);
    assert_eq!(times(&entries), vec![0, 0, 1, 2, 2]);
}

fn read_line(line: &str) -> Option<UsageLogSample> {
    let (provider, secs) = line.split_once(' ')?;
    let secs: i64 = secs.parse().ok()?;
    Some(UsageLogSample { provider: provider.to_string(), ..sample(NOW + secs, Some(1.0)) })
}

fn history_in(log: &str) -> Vec<i64> {
    let read = split_lines(log).iter().map(|line| read_line(line)).collect();
    times(&load_relevant_entries(readable_records(read), &sample(NOW, Some(1.0))))
}

#[test]
fn lines_without_a_record_are_passed_over() {
    let read = vec![None, Some(sample(NOW, None)), None, Some(sample(NOW - 5, None)), None];
    assert_eq!(times(&readable_records(read)), vec![0, -5]);
    assert!(readable_records(vec![None]).is_empty());
}

#[test]
fn other_lines_do_not_count() {
    let log = "codex -9\ncodex -4\n";
    let fuller = "\n{bad\ncodex -9\ncursor -7\n  \ncodex -4\ncursor -1\n";
    assert_eq!(history_in(log), vec![-9, -4]);
    assert_eq!(history_in(fuller), history_in(log));
}

#[test]
fn history_of_a_continued_log_is_continued() {
    let (log, more) = ("codex -9\ncursor -8\n", "codex -4\ncodex -6");
    let mut expected = history_in(log);
    expected.extend(history_in(more));
    assert_eq!(history_in(&format!("{}{}", log, more)), expected);
    assert_eq!(expected, vec![-9, -4, -6]);
}

#[test]
fn order_in_the_log_does_not_matter() {
    let records = || {
        vec![
            sample(NOW - 300, Some(1.0)),
            sample(NOW - 200, Some(4.0)),
            sample(NOW - 100, Some(6.0)),
        ]
    };
    let shown = |records: Vec<UsageLogSample>| {
        let trends = summarize_usage(sample(NOW, Some(9.0)), records);
        let t = &trends[0];
        let rises = pairs(&t.last_week.as_ref().unwrap().rises);
        (number(t.previous), t.elapsed_seconds, t.sample_count, rises)
    };
    let mut reversed = records();
    reversed.reverse();
    let mut rotated = records();
    rotated.rotate_left(1);
    assert_eq!(shown(records()), shown(reversed));
    assert_eq!(shown(records()), shown(rotated));
    let rises = vec![(1.0, 4.0), (4.0, 6.0), (6.0, 9.0)];
    assert_eq!(shown(records()), (6.0, 100, 4, rises));
}

#[test]
fn only_the_window_counts_and_not_its_date() {
    let now = |secs: i64| Timestamp::new(secs, 0).unwrap();
    let shown = |entries: Vec<UsageLogSample>, at: i64| {
        let w = average_positive_delta_per_day(&entries, now(at), 1, Lane::Session).unwrap();
        (pairs(&w.rises), w.elapsed_seconds)
    };
    let core = |at: i64| vec![sample(at - DAY, Some(2.0)), sample(at, Some(5.0))];
    let fuller = vec![
        sample(NOW - DAY - 1, Some(90.0)),
        sample(NOW - DAY, Some(2.0)),
        sample(NOW - 7, None),
        sample(NOW, Some(5.0)),
    ];
    assert_eq!(shown(core(NOW), NOW), (vec![(2.0, 5.0)], DAY));
    assert_eq!(shown(fuller, NOW), shown(core(NOW), NOW));
    assert_eq!(shown(core(NOW + 12_345), NOW + 12_345), shown(core(NOW), NOW));
}

#[test]
fn a_pace_is_never_negative() {
    let samples = [
        -3.0, -0.0, 0.0, 1e-320, 2.5, f64::INFINITY, f64::NEG_INFINITY, f64::NAN,
    ];
    for x in samples {
        assert_eq!(number(forward_pace(pattern(x))), x.max(0.0), "{}", x);
    }
    assert_eq!(forward_pace(pattern(-3.0)).bits, 0);
}

#[test]
fn more_excess_never_reads_as_slower() {
    let rank = |c: UsageTrendComparison| match c {
        UsageTrendComparison::Slower => 0,
        UsageTrendComparison::Steady => 1,
        UsageTrendComparison::Faster => 2,
        other => panic!("unexpected verdict {:?}", other),
    };
    for average in [-40.0, 0.0, 3.0, 20.0, 1e300] {
        let mut last = 0;
        for excess in [f64::NEG_INFINITY, -1e299, -6.0, -1.0, 0.0, 1.0, 5.0, 11.0, f64::MAX] {
            let pace =
                Pace { average_per_day: pattern(average), excess_per_day: pattern(excess) };
            let next = rank(compare_current_to_average(pattern(1.0), Some(pace)));
            assert!(next >= last);
            last = next;
        }
        assert_eq!(last, 2);
    }
}

#[test]
fn large_logs_are_not_read() {
    assert_eq!(MAX_READ_BYTES, 8 * 1024 * 1024);
    assert!(is_readable_size(8 * 1024 * 1024));
    assert!(!is_readable_size(8 * 1024 * 1024 + 1));
}

#[test]
fn trend_compares_with_the_last_record_half_a_minute_older() {
    let records = vec![
        sample(NOW - 60, Some(10.0)),
        sample(NOW - 30, Some(12.0)),
        sample(NOW - 29, Some(13.0)),
        sample(NOW - 5, None),
    ];
    let trends = summarize_usage(sample(NOW, Some(15.0)), records);
    assert_eq!(trends.len(), 1);
    let t = &trends[0];
    assert_eq!(t.label, "Primary");
    assert_eq!((number(t.latest), number(t.previous)), (15.0, 12.0));
    assert_eq!(t.elapsed_seconds, 30);
    assert_eq!(t.sample_count, 4);
    let day = t.last_day.as_ref().unwrap();
    assert_eq!(pairs(&day.rises), vec![(10.0, 12.0), (12.0, 13.0), (13.0, 15.0)]);
    assert_eq!(day.elapsed_seconds, 60);
}

#[test]
fn trend_windows_reach_back_a_day_and_a_week() {
    let records = vec![
        sample(NOW - 7 * DAY - 1, Some(1.0)),
        sample(NOW - 7 * DAY, Some(50.0)),
        sample(NOW - 2 * DAY, Some(20.0)),
        sample(NOW - DAY, Some(25.0)),
    ];
    let trends = summarize_usage(sample(NOW, Some(40.0)), records);
    let t = &trends[0];
    let day = t.last_day.as_ref().unwrap();
    assert_eq!(pairs(&day.rises), vec![(25.0, 40.0)]);
    assert_eq!(day.elapsed_seconds, DAY);
    let week = t.last_week.as_ref().unwrap();
    assert_eq!(pairs(&week.rises), vec![(20.0, 25.0), (25.0, 40.0)]);
    assert_eq!(week.elapsed_seconds, 7 * DAY);
    assert_eq!(t.elapsed_seconds, DAY);
    assert_eq!(t.sample_count, 5);
}

#[test]
fn a_lone_record_of_the_day_has_only_a_weekly_average() {
    let records = vec![sample(NOW - 2 * DAY, Some(20.0))];
    let trends = summarize_usage(sample(NOW, Some(21.0)), records);
    assert!(trends[0].last_day.is_none());
    assert_eq!(pairs(&trends[0].last_week.as_ref().unwrap().rises), vec![(20.0, 21.0)]);
}

#[test]
fn trends_come_in_a_fixed_order() {
    let all = |secs: i64, x: f64| UsageLogSample {
        weekly_percent: Some(pattern(x + 1.0)),
        model_percent: Some(pattern(x + 2.0)),
        ..sample(secs, Some(x))
    };
    let trends = summarize_usage(all(NOW, 5.0), vec![all(NOW - 100, 1.0)]);
    let labels: Vec<&str> = trends.iter().map(|t| t.label).collect();
    assert_eq!(labels, vec!["Primary", "Secondary", "Model"]);
    assert_eq!(number(trends[2].previous), 3.0);
    assert_eq!(Lane::Weekly.label(), "Secondary");
}

#[test]
fn there_is_no_trend_without_two_comparable_records() {
    assert!(trend_of(&vec![], Lane::Session).is_none());
    assert!(summarize_usage(sample(NOW, Some(1.0)), vec![]).is_empty());
    assert!(summarize_usage(sample(NOW, None), vec![sample(NOW - 60, Some(1.0))]).is_empty());
    assert!(summarize_usage(sample(NOW, Some(1.0)), vec![sample(NOW - 29, Some(1.0))]).is_empty());
    assert!(summarize_usage(sample(NOW, Some(1.0)), vec![sample(NOW - 60, None)]).is_empty());
}

#[test]
fn averages_are_taken_over_a_second_at_least() {
    let entries = vec![sample(NOW, Some(1.0)), sample(NOW, Some(2.0))];
    let now = Timestamp::new(NOW, 0).unwrap();
    let window = average_positive_delta_per_day(&entries, now, 1, Lane::Session).unwrap();
    assert_eq!(window.elapsed_seconds, 1);
    assert_eq!(pairs(&window.rises), vec![(1.0, 2.0)]);
    assert!(average_positive_delta_per_day(&entries, now, 1, Lane::Model).is_none());
}

#[test]
fn elapsed_seconds_are_whole_seconds() {
    let mut earlier = sample(NOW - 30, Some(1.0));
    earlier.timestamp = Timestamp::new(NOW - 30, 1).unwrap();
    assert!(summarize_usage(sample(NOW, Some(2.0)), vec![earlier]).is_empty());
    let mut earlier = sample(NOW - 31, Some(1.0));
    earlier.timestamp = Timestamp::new(NOW - 31, 1).unwrap();
    let trends = summarize_usage(sample(NOW, Some(2.0)), vec![earlier]);
    assert_eq!(trends[0].elapsed_seconds, 30);
}

#[test]
fn leap_seconds_count_as_the_calendar_counts_them() {
    let point = |secs: i64, nanos: u32| Timestamp::new(secs, nanos).unwrap();
    let chrono_at = |t: Timestamp| {
        DateTime::<Utc>::from_timestamp(t.secs(), 0)
            .unwrap()
            .naive_utc()
            .with_nanosecond(t.nanos())
            .unwrap()
            .and_utc()
    };
    let times = [
        point(NOW, 0),
        point(NOW, 1_400_000_000),
        point(NOW + 40, 1_900_000_000),
        point(NOW + 41, 0),
        point(NOW + 41, 100_000_000),
        point(NOW + DAY - 1, 1_000_000_000),
        point(NOW + DAY, 1_999_999_999),
        point(NOW + 2 * DAY + 77, 999_999_999),
    ];
    for a in times {
        for b in times {
            if !b.is_at_or_after(&a) {
                continue;
            }
            let mut earlier = sample(NOW, Some(1.0));
            earlier.timestamp = a;
            let mut later = sample(NOW, Some(2.0));
            later.timestamp = b;
            let seconds = chrono_at(b).signed_duration_since(chrono_at(a)).num_seconds();
            let trends = summarize_usage(later, vec![earlier]);
            assert_eq!(trends.len() == 1, seconds >= 30);
            for t in &trends {
                assert_eq!(t.elapsed_seconds, seconds);
                let cutoff = chrono_at(b) - Duration::days(1);
                assert_eq!(t.last_day.is_some(), chrono_at(a) >= cutoff);
            }
        }
    }
}

#[test]
fn history_of_a_leap_second_begins_after_it() {
    let mut s = sample(NOW, Some(1.0));
    s.timestamp = Timestamp::new(NOW, 1_500_000_000).unwrap();
    let at = |secs: i64, nanos: u32| {
        let mut e = sample(NOW, None);
        e.timestamp = Timestamp::new(secs, nanos).unwrap();
        e
    };
    let start = NOW - 30 * DAY + 1;
    let records = vec![at(start, 499_999_999), at(start, 500_000_000)];
    let kept = load_relevant_entries(records, &s);
    assert_eq!(kept.len(), 1);
    assert_eq!(kept[0].timestamp.nanos(), 500_000_000);
}

fn expected_comparison(delta: f64, per_hour: f64, average: Option<f64>) -> UsageTrendComparison {
    if delta < -0.1 {
        return UsageTrendComparison::ResetOrDrop;
    }
    let average = match average {
        Some(a) => a,
        None => return UsageTrendComparison::Insufficient,
    };
    let diff = per_hour.max(0.0) * 24.0 - average;
    let threshold = (average.abs() * 0.25).max(1.0);
    if diff > threshold {
        UsageTrendComparison::Faster
    } else if diff < -threshold {
        UsageTrendComparison::Slower
    } else {
        UsageTrendComparison::Steady
    }
}

#[test]
fn comparison_is_that_of_the_formula() {
    let averages = [
        0.0, -0.0, 1e-310, 0.5, 3.999, 4.0, 4.0000000001, 5.0, 23.0, 24.0, 1e9, -40.0, f64::MAX,
        f64::INFINITY, f64::NEG_INFINITY, f64::NAN,
    ];
    let hourly = [
        -3.0, 0.0, 0.04, 0.25, 1.0, 1.25, 1.2500001, 0.75, 0.7499999, 1e10, f64::MAX,
        f64::INFINITY, f64::NAN,
    ];
    let deltas = [-5.0, -0.11, -0.1, -0.09, 0.0, 3.0, f64::NAN];
    for delta in deltas {
        for per_hour in hourly {
            for average in averages {
                let pace = Pace {
                    average_per_day: pattern(average),
                    excess_per_day: pattern(per_hour.max(0.0) * 24.0 - average),
                };
                assert_eq!(
                    compare_current_to_average(pattern(delta), Some(pace)),
                    expected_comparison(delta, per_hour, Some(average)),
                    "{} {} {}",
                    delta,
                    per_hour,
                    average
                );
            }
        }
        assert_eq!(
            compare_current_to_average(pattern(delta), None),
            expected_comparison(delta, 0.0, None)
        );
    }
    assert_eq!(DROP_THRESHOLD, (-0.1f64).to_bits());
}

#[test]
fn verdicts_of_a_pace() {
    let verdict = |average: f64, excess: f64| {
        compare_current_to_average(
            pattern(0.0),
            Some(Pace { average_per_day: pattern(average), excess_per_day: pattern(excess) }),
        )
    };
    assert_eq!(verdict(20.0, 5.0), UsageTrendComparison::Steady);
    assert_eq!(verdict(20.0, 5.1), UsageTrendComparison::Faster);
    assert_eq!(verdict(20.0, -5.0), UsageTrendComparison::Steady);
    assert_eq!(verdict(20.0, -5.1), UsageTrendComparison::Slower);
    assert_eq!(verdict(2.0, 1.0), UsageTrendComparison::Steady);
    assert_eq!(verdict(2.0, 1.1), UsageTrendComparison::Faster);
}

#[test]
fn summaries_carry_the_figures() {
    let records = vec![sample(NOW - 3600, Some(10.0))];
    let trends = summarize_usage(sample(NOW, Some(16.0)), records);
    let figures = TrendFigures {
        delta_percent: pattern(6.0),
        per_hour: pattern(6.0),
        average_per_day_24h: Some(pattern(144.0)),
        pace_7d: Some(Pace {
            average_per_day: pattern(144.0),
            excess_per_day: pattern(0.0),
        }),
    };
    let summary = complete_summary(&trends[0], figures);
    assert_eq!(summary.label, "Primary");
    assert_eq!(number(summary.delta_percent), 6.0);
    assert_eq!(number(summary.per_hour), 6.0);
    assert_eq!(summary.average_per_day_24h.map(number), Some(144.0));
    assert_eq!(summary.average_per_day_7d.map(number), Some(144.0));
    assert_eq!(summary.comparison, UsageTrendComparison::Steady);
    assert_eq!(summary.sample_count, 2);
}

#[test]
fn figures_over_a_missing_window_do_not_count() {
    let records = vec![sample(NOW - 2 * DAY, Some(10.0))];
    let trends = summarize_usage(sample(NOW, Some(16.0)), records);
    assert!(trends[0].last_day.is_none() && trends[0].last_week.is_some());
    let figures = TrendFigures {
        delta_percent: pattern(6.0),
        per_hour: pattern(0.125),
        average_per_day_24h: Some(pattern(9.0)),
        pace_7d: Some(Pace {
            average_per_day: pattern(3.0),
            excess_per_day: pattern(50.0),
        }),
    };
    let summary = complete_summary(&trends[0], figures);
    assert!(summary.average_per_day_24h.is_none());
    assert_eq!(summary.average_per_day_7d.map(number), Some(3.0));
    assert_eq!(summary.comparison, UsageTrendComparison::Faster);
    let records = vec![sample(NOW - 8 * DAY, Some(10.0))];
    let trends = summarize_usage(sample(NOW, Some(16.0)), records);
    assert!(trends[0].last_week.is_none());
    let summary = complete_summary(&trends[0], figures);
    assert!(summary.average_per_day_24h.is_none());
    assert!(summary.average_per_day_7d.is_none());
    assert_eq!(summary.comparison, UsageTrendComparison::Insufficient);
}

#[test]
fn a_higher_rate_never_reads_as_slower() {
    let rank = |c: UsageTrendComparison| match c {
        UsageTrendComparison::Slower => 0,
        UsageTrendComparison::Steady => 1,
        UsageTrendComparison::Faster => 2,
        other => panic!("unexpected verdict {:?}", other),
    };
    for average in [0.0, 3.0, 24.0, 1e9] {
        let read = |per_hour: f64| {
            let pace = number(forward_pace(pattern(per_hour)));
            rank(compare_current_to_average(
                pattern(1.0),
                Some(Pace {
                    average_per_day: pattern(average),
                    excess_per_day: pattern(pace * 24.0 - average),
                }),
            ))
        };
        let mut last = 0;
        for per_hour in [-5.0, -0.0, 0.0, 0.04, 0.7, 1.0, 1.3, 1e8, 1e9] {
            assert!(read(per_hour) >= last);
            last = read(per_hour);
        }
        assert_eq!(read(-5.0), read(0.0));
    }
}

#[test]
fn a_sample_is_counted_recorded_and_summarized() {
    let earlier = || UsageLogSample {
        codex_tokens: Some(tokens(100, 0, 0, 100)),
        ..sample(NOW - 60, Some(1.0))
    };
    let s = UsageLogSample {
        codex_tokens: Some(tokens(120, 0, 0, 120)),
        ..sample(NOW, Some(2.0))
    };
    let state = append_and_summarize_usage(s);
    assert!(matches!(state.action(), LogAction::Read));
    let event = LogEvent::Records(vec![earlier()]);
    assert!(state.can_take(&event));
    let state = state.step(event);
    match state.action() {
        LogAction::Append(recorded) => assert_eq!(deltas(recorded), (20, 0, 0, 20)),
        other => panic!("unexpected action {:?}", other),
    }
    let state = state.step(LogEvent::Appended(Err("disk full".to_string())));
    assert!(matches!(state.action(), LogAction::Read));
    let state = state.step(LogEvent::Records(vec![earlier()]));
    assert!(matches!(state.action(), LogAction::Stop));
    match state {
        LogState::Done { trends } => {
            assert_eq!(trends.len(), 1);
            assert_eq!(number(trends[0].previous), 1.0);
        }
        other => panic!("unexpected state {:?}", other),
    }
}

#[test]
fn a_recorded_sample_counts_twice_in_its_own_trend() {
    let s = sample(NOW, Some(2.0));
    let records = vec![sample(NOW - 60, Some(1.0)), s.clone()];
    let trends = summarize_usage(s, records);
    assert_eq!(trends[0].sample_count, 3);
    assert_eq!(number(trends[0].previous), 1.0);
}

#[test]
fn the_next_sample_counts_from_the_recorded_one() {
    let first = UsageLogSample {
        codex_tokens: Some(tokens(120, 10, 5, 135)),
        ..sample(NOW, Some(2.0))
    };
    let records = vec![with_tokens(NOW - 60, tokens(100, 0, 0, 100)), first];
    let next = UsageLogSample {
        codex_tokens: Some(tokens(121, 12, 8, 141)),
        ..sample(NOW + 60, Some(3.0))
    };
    let state = append_and_summarize_usage(next).step(LogEvent::Records(records));
    match state {
        LogState::Appending { sample } => assert_eq!(deltas(&sample), (1, 2, 3, 6)),
        other => panic!("unexpected state {:?}", other),
    }
}

#[test]
fn a_sample_without_percentages_is_not_recorded() {
    let state = append_and_summarize_usage(sample(NOW, None));
    let state = state.step(LogEvent::Unreadable);
    assert!(matches!(state, LogState::Summarizing { .. }));
    let state = state.step(LogEvent::Unreadable);
    assert!(matches!(state, LogState::Done { trends } if trends.is_empty()));
}

#[test]
fn a_state_leaves_what_it_does_not_wait_for() {
    let state = append_and_summarize_usage(sample(NOW, Some(1.0)));
    let state = state.step(LogEvent::Appended(Ok(())));
    assert!(matches!(state, LogState::Hydrating { .. }));
}

#[test]
fn records_that_cannot_be_used_are_told_in_advance() {
    let early = sample(MIN_SECS + 30 * DAY - 1, Some(1.0));
    assert!(!reaches_back(&early));
    let state = append_and_summarize_usage(early);
    assert!(!state.can_take(&LogEvent::Records(vec![])));
    assert!(state.can_take(&LogEvent::Unreadable));
    let state = append_and_summarize_usage(with_tokens(NOW, tokens(0, 0, 0, i64::MAX)));
    let overflowing = || with_tokens(NOW - 1, tokens(0, 0, 0, -1));
    assert!(!state.can_take(&LogEvent::Records(vec![overflowing()])));
    let later = with_tokens(NOW + 1, tokens(0, 0, 0, -1));
    assert!(state.can_take(&LogEvent::Records(vec![later])));
    let newer = with_tokens(NOW, tokens(0, 0, 0, 1));
    assert!(state.can_take(&LogEvent::Records(vec![overflowing(), newer])));
}
