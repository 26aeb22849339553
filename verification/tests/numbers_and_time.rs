use chrono::{DateTime, Duration, Timelike, Utc};
use codexbar::binary64::Binary64;
use codexbar::timestamp::{Timestamp, MAX_SECS, MIN_SECS};

fn pattern(x: f64) -> Binary64 {
    Binary64 { bits: x.to_bits() }
}

fn at(secs: i64, nanos: u32) -> Timestamp {
    Timestamp::new(secs, nanos).expect("on the calendar")
}

fn samples() -> Vec<f64> {
    vec![
        0.0, -0.0, 1e-320, -1e-320, 2.2250738585072014e-308, 0.1, -0.1, 1.0, -1.0, 4.0, 25.0,
        100.0, -100.0, 1e300, f64::MAX, f64::MIN, f64::INFINITY, f64::NEG_INFINITY, f64::NAN,
    ]
}

#[test]
fn patterns_are_ordered_as_numbers_are() {
    for a in samples() {
        for b in samples() {
            assert_eq!(pattern(a).is_below(pattern(b)), a < b, "{} {}", a, b);
        }
        assert_eq!(pattern(a).is_nan(), a.is_nan());
        assert_eq!(pattern(a).is_finite(), a.is_finite());
        assert_eq!(pattern(a).absolute().bits, a.abs().to_bits());
        assert_eq!(pattern(a).negated().bits, (-a).to_bits());
    }
}

#[test]
fn a_difference_is_positive_exactly_if_the_second_number_is_greater() {
    for a in samples() {
        for b in samples() {
            assert_eq!(pattern(a).is_below(pattern(b)), b - a > 0.0, "{} {}", a, b);
        }
    }
}

#[test]
fn calendar_is_that_of_chrono() {
    assert_eq!(MIN_SECS, DateTime::<Utc>::MIN_UTC.timestamp());
    assert_eq!(MAX_SECS, DateTime::<Utc>::MAX_UTC.timestamp());
    let seconds = [MIN_SECS - 1, MIN_SECS, -61, -60, -1, 0, 59, 60, 119, MAX_SECS, MAX_SECS + 1];
    let nanos = [0, 999_999_999, 1_000_000_000, 1_999_999_999, 2_000_000_000];
    for s in seconds {
        for n in nanos {
            let expected = DateTime::<Utc>::from_timestamp(s, 0)
                .and_then(|second| second.naive_utc().with_nanosecond(n));
            let got = Timestamp::new(s, n);
            assert_eq!(got.is_some(), expected.is_some(), "{} {}", s, n);
            if let Some(t) = got {
                assert_eq!((t.secs(), t.nanos()), (s, n));
            }
        }
    }
}

#[test]
fn points_are_ordered_by_second_and_nanosecond() {
    assert!(at(1, 0).is_at_or_after(&at(0, 999)));
    assert!(at(1, 0).is_at_or_after(&at(1, 0)));
    assert!(!at(1, 0).is_at_or_after(&at(1, 1)));
    assert!(!at(0, 999).is_at_or_after(&at(1, 0)));
}

#[test]
fn going_back_is_possible_while_the_calendar_lasts() {
    assert!(at(MIN_SECS + 30 * 86_400, 0).can_go_back(30));
    assert!(!at(MIN_SECS + 30 * 86_400 - 1, 0).can_go_back(30));
    assert!(at(MIN_SECS + 30 * 86_400 - 1, 1_000_000_000).can_go_back(30));
    let leap = DateTime::<Utc>::from_timestamp(MIN_SECS + 30 * 86_400 - 1, 1_000_000_000).unwrap();
    assert_eq!(leap.checked_sub_signed(Duration::days(30)).unwrap().timestamp(), MIN_SECS);
}
