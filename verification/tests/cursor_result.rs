use codexbar::binary64::Binary64;
use codexbar::cursor::api::{
    build_result_at, desktop_used_percent, normalize_cursor_percent, plan_label,
    web_used_percent, CostSnapshot, CursorApi, RateWindow, UsedPercent,
};
use codexbar::cursor::date::{billing_window_minutes, parse_cursor_date};
use codexbar::cursor::payload::{
    IndividualUsage, OnDemandUsage, PlanBreakdown, PlanUsage, TeamUsage, UsageSummary, UserInfo,
};
use codexbar::timestamp::Timestamp;
use serde_json::Value;

fn api() -> CursorApi {
    CursorApi::new()
}

fn text(v: &Value, key: &str) -> Option<String> {
    v.get(key).and_then(|x| x.as_str()).map(|s| s.to_string())
}

fn flag(v: &Value, key: &str) -> Option<bool> {
    v.get(key).and_then(|x| x.as_bool())
}

fn amount(v: &Value, key: &str) -> Option<i64> {
    v.get(key).and_then(|x| x.as_i64())
}

fn number(v: &Value, key: &str) -> Option<Binary64> {
    v.get(key).and_then(|x| x.as_f64()).map(pattern)
}

fn pattern(x: f64) -> Binary64 {
    Binary64 { bits: x.to_bits() }
}

fn plan(v: &Value) -> PlanUsage {
    PlanUsage {
        enabled: flag(v, "enabled"),
        used: amount(v, "used"),
        limit: amount(v, "limit"),
        remaining: amount(v, "remaining"),
        breakdown: v.get("breakdown").map(|b| PlanBreakdown {
            included: amount(b, "included"),
            bonus: amount(b, "bonus"),
            total: amount(b, "total"),
        }),
        auto_percent_used: number(v, "autoPercentUsed"),
        api_percent_used: number(v, "apiPercentUsed"),
        total_percent_used: number(v, "totalPercentUsed"),
        total_spend: amount(v, "totalSpend"),
        included_spend: amount(v, "includedSpend"),
    }
}

fn on_demand(v: &Value) -> OnDemandUsage {
    OnDemandUsage {
        enabled: flag(v, "enabled"),
        used: amount(v, "used"),
        limit: amount(v, "limit"),
        remaining: amount(v, "remaining"),
    }
}

fn parse_summary(json: &str) -> UsageSummary {
    let v: Value = serde_json::from_str(json).expect("fixture should parse");
    UsageSummary {
        billing_cycle_start: text(&v, "billingCycleStart"),
        billing_cycle_end: text(&v, "billingCycleEnd"),
        membership_type: text(&v, "membershipType"),
        limit_type: text(&v, "limitType"),
        is_unlimited: flag(&v, "isUnlimited"),
        individual_usage: v.get("individualUsage").map(|u| IndividualUsage {
            plan: u.get("plan").map(plan),
            on_demand: u.get("onDemand").map(on_demand),
        }),
        plan_usage: v.get("planUsage").map(plan),
        team_usage: v.get("teamUsage").map(|u| TeamUsage {
            on_demand: u.get("onDemand").map(on_demand),
        }),
    }
}

fn percent(used: UsedPercent) -> f64 {
    match used {
        UsedPercent::Reported(p) => f64::from_bits(p.bits),
        UsedPercent::Ratio { part, whole } => (part as f64 / whole as f64) * 100.0,
    }
}

fn used_percent(window: &RateWindow) -> f64 {
    percent(window.used_percent)
}

fn used(cost: &CostSnapshot) -> f64 {
    cost.used_cents as f64 / 100.0
}

fn limit(cost: &CostSnapshot) -> Option<f64> {
    cost.limit_cents.map(|c| c as f64 / 100.0)
}

#[test]
fn test_cursor_build_result_preserves_small_percentage_lanes() {
    let json = r#"{
            "billingCycleStart": "2026-03-01T00:00:00Z",
            "billingCycleEnd": "2026-04-01T00:00:00Z",
            "membershipType": "pro",
            "individualUsage": {
                "plan": {
                    "used": 1500,
                    "limit": 5000,
                    "totalPercentUsed": 6.15,
                    "autoPercentUsed": 0.0,
                    "apiPercentUsed": 0.2667
                }
            }
        }"#;

    let summary = parse_summary(json);
    let (primary, secondary, model_specific, cost, _email, plan_type) =
        api().build_result(summary, None).unwrap();

    assert!((used_percent(&primary) - 6.15).abs() < 0.01);

    let sec = secondary.expect("secondary should be present");
    assert!((used_percent(&sec)).abs() < 0.01);
    assert!(sec.resets_at.is_some());

    let ms = model_specific.expect("model_specific should be present");
    assert!((used_percent(&ms) - 0.2667).abs() < 0.01);
    assert!(ms.resets_at.is_some());

    assert!(cost.is_some());
    assert_eq!(plan_type.as_deref(), Some("Cursor Pro"));
}

#[test]
fn test_cursor_build_result_accepts_desktop_usage_payload() {
    let json = r#"{
            "billingCycleStart": "1781648722000",
            "billingCycleEnd": "1784240722000",
            "planUsage": {
                "totalSpend": 421,
                "includedSpend": 421,
                "remaining": 1579,
                "limit": 2000,
                "autoPercentUsed": 0.0,
                "apiPercentUsed": 9.355555555555556,
                "totalPercentUsed": 2.158974358974359
            },
            "enabled": true
        }"#;

    let summary = parse_summary(json);
    let (primary, secondary, model_specific, cost, _, _) =
        api().build_result(summary, None).unwrap();

    assert!((used_percent(&primary) - 21.05).abs() < 0.01);
    assert_eq!(primary.window_minutes, Some(43_200));

    let auto = secondary.expect("desktop payload includes the Auto lane");
    assert!(used_percent(&auto).abs() < f64::EPSILON);

    let api_lane = model_specific.expect("desktop payload includes the API lane");
    assert!((used_percent(&api_lane) - 9.355555555555556).abs() < 0.01);

    let cost = cost.expect("desktop payload includes plan spend");
    assert!((used(&cost) - 4.21).abs() < 0.01);
    assert_eq!(limit(&cost), Some(20.0));
}

#[test]
fn test_cursor_build_result_cents_only() {
    let json = r#"{
            "billingCycleEnd": "2026-04-01T00:00:00Z",
            "membershipType": "pro",
            "individualUsage": {
                "plan": {
                    "used": 2500,
                    "limit": 5000
                }
            }
        }"#;

    let summary = parse_summary(json);
    let (primary, secondary, model_specific, cost, _, _) =
        api().build_result(summary, None).unwrap();

    assert!((used_percent(&primary) - 50.0).abs() < 0.01);
    assert!(secondary.is_none(), "no autoPercentUsed in payload");
    assert!(model_specific.is_none(), "no apiPercentUsed in payload");
    assert!(cost.is_some());
}

#[test]
fn test_cursor_build_result_missing_plan() {
    let json = r#"{
            "membershipType": "hobby",
            "individualUsage": {}
        }"#;

    let summary = parse_summary(json);
    let (primary, secondary, model_specific, cost, _, _) =
        api().build_result(summary, None).unwrap();

    assert!((used_percent(&primary)).abs() < 0.01);
    assert!(secondary.is_none());
    assert!(model_specific.is_none());
    assert!(cost.is_none());
}

#[test]
fn test_cursor_on_demand_as_cost() {
    let json = r#"{
            "billingCycleEnd": "2026-04-01T00:00:00Z",
            "membershipType": "pro",
            "individualUsage": {
                "plan": {
                    "used": 800,
                    "limit": 5000,
                    "totalPercentUsed": 0.16
                },
                "onDemand": {
                    "enabled": true,
                    "used": 350,
                    "limit": 1000
                }
            }
        }"#;

    let summary = parse_summary(json);
    let (primary, _, _, cost, _, _) = api().build_result(summary, None).unwrap();

    assert!((used_percent(&primary) - 0.16).abs() < 0.01);
    let cost = cost.expect("cost should exist from plan usage");
    assert!((used(&cost) - 8.0).abs() < 0.01);
    assert_eq!(limit(&cost), Some(50.0));
}

#[test]
fn dates_and_cycle_of_a_result_are_exact() {
    let summary = parse_summary(
        r#"{
            "billingCycleStart": "2026-03-01T00:00:00Z",
            "billingCycleEnd": "2026-04-01T00:00:00.25+02:00",
            "planUsage": { "limit": 0, "totalPercentUsed": 130.5, "totalSpend": 7 }
        }"#,
    );
    let (primary, secondary, _, cost, email, plan_type) = CursorApi::default()
        .build_result(summary, None)
        .unwrap();
    let end = Timestamp::new(1_774_994_400, 250_000_000);
    assert!(end.is_some());
    assert_eq!(primary.resets_at, end);
    assert_eq!(primary.window_minutes, Some(44_520));
    assert!(primary.reset_description.is_none());
    assert_eq!(percent(primary.used_percent), 100.0);
    assert!(secondary.is_none());
    let cost = cost.unwrap();
    assert_eq!(cost.resets_at, end);
    assert_eq!(cost.used_cents, 7);
    assert_eq!(cost.limit_cents, None);
    assert_eq!(cost.currency, "USD");
    assert_eq!(cost.period, "Monthly");
    assert_eq!(email, None);
    assert_eq!(plan_type, None);
}

#[test]
fn desktop_plan_goes_before_the_individual_one() {
    let summary = parse_summary(
        r#"{
            "planUsage": { "includedSpend": 1, "limit": 4 },
            "individualUsage": { "plan": { "used": 3, "limit": 4 } }
        }"#,
    );
    let (primary, _, _, _, _, _) = api().build_result(summary, None).unwrap();
    assert_eq!(primary.used_percent, UsedPercent::Ratio { part: 1, whole: 4 });
    assert_eq!(percent(primary.used_percent), 25.0);
}

#[test]
fn on_demand_and_team_usage_do_not_count() {
    let bare = r#"{ "individualUsage": { "plan": { "used": 3, "limit": 4 } } }"#;
    let full = r#"{
        "limitType": "team",
        "teamUsage": { "onDemand": { "used": 9 } },
        "individualUsage": {
            "plan": { "used": 3, "limit": 4 },
            "onDemand": { "used": 100, "limit": 1 }
        }
    }"#;
    let (a, _, _, ca, _, _) = api().build_result(parse_summary(bare), None).unwrap();
    let (b, _, _, cb, _, _) = api().build_result(parse_summary(full), None).unwrap();
    assert_eq!(a.used_percent, b.used_percent);
    assert_eq!(ca.unwrap().used_cents, cb.unwrap().used_cents);
}

#[test]
fn web_percent_prefers_what_is_reported_and_honours_unlimited_plans() {
    let reported: Value =
        serde_json::from_str(r#"{ "totalPercentUsed": 12.5, "used": 1, "limit": 2 }"#).unwrap();
    let amounts: Value = serde_json::from_str(
        r#"{ "used": 1, "limit": 2, "breakdown": { "included": 2, "bonus": 2, "total": 8 } }"#,
    )
    .unwrap();
    let untotalled: Value =
        serde_json::from_str(r#"{ "used": 1, "limit": 2, "breakdown": { "bonus": 2 } }"#).unwrap();
    assert_eq!(percent(web_used_percent(&plan(&reported), Some(true))), 12.5);
    assert_eq!(
        web_used_percent(&plan(&amounts), None),
        UsedPercent::Ratio { part: 1, whole: 8 }
    );
    assert_eq!(
        web_used_percent(&plan(&amounts), Some(false)),
        UsedPercent::Ratio { part: 1, whole: 8 }
    );
    assert_eq!(percent(web_used_percent(&plan(&amounts), Some(true))), 0.0);
    assert_eq!(
        web_used_percent(&plan(&untotalled), None),
        UsedPercent::Ratio { part: 1, whole: 2 }
    );
}

#[test]
fn desktop_percent_without_a_limit_is_what_is_reported() {
    let none: Value = serde_json::from_str(r#"{ "includedSpend": 5, "limit": -3 }"#).unwrap();
    let some: Value = serde_json::from_str(r#"{ "totalPercentUsed": 2.5 }"#).unwrap();
    assert_eq!(percent(desktop_used_percent(&plan(&none))), 0.0);
    assert_eq!(percent(desktop_used_percent(&plan(&some))), 2.5);
}

#[test]
fn percentages_are_clamped_as_numbers_are() {
    let samples = [
        0.0, -0.0, 1e-320, 0.2667, 6.15, 99.999999, 100.0, 100.00000000000001, 1e300, -1e-320,
        -5.0, f64::MAX, f64::MIN, f64::INFINITY, f64::NEG_INFINITY, f64::NAN,
    ];
    for x in samples {
        let expected = if x.is_finite() { x.clamp(0.0, 100.0) } else { 0.0 };
        let got = normalize_cursor_percent(pattern(x));
        assert_eq!(got.bits, expected.to_bits(), "{}", x);
        assert_eq!(normalize_cursor_percent(got), got);
    }
}

#[test]
fn plans_are_named() {
    assert_eq!(plan_label("enterprise"), "Cursor Enterprise");
    assert_eq!(plan_label("pro"), "Cursor Pro");
    assert_eq!(plan_label("hobby"), "Cursor Hobby");
    assert_eq!(plan_label("team"), "Cursor Team");
    assert_eq!(plan_label("ultra"), "Cursor Ultra");
    assert_eq!(plan_label(""), "Cursor ");
    let summary = parse_summary(r#"{ "membershipType": "ENTERPRISE" }"#);
    let (_, _, _, _, _, plan_type) = api().build_result(summary, None).unwrap();
    assert_eq!(plan_type.as_deref(), Some("Cursor Enterprise"));
    let summary = parse_summary(r#"{ "membershipType": "Free_Trial" }"#);
    let (_, _, _, _, _, plan_type) = api().build_result(summary, None).unwrap();
    assert_eq!(plan_type.as_deref(), Some("Cursor Free_trial"));
}

#[test]
fn email_comes_from_the_user() {
    let user = UserInfo {
        email: Some("a@b.c".to_string()),
        email_verified: Some(true),
        name: None,
        sub: None,
        created_at: None,
        updated_at: None,
        picture: None,
    };
    let (_, _, _, _, email, _) = api().build_result(parse_summary("{}"), Some(user)).unwrap();
    assert_eq!(email.as_deref(), Some("a@b.c"));
}

#[test]
fn dates_are_milliseconds_or_written_out() {
    let at = |s: &str| parse_cursor_date(s).map(|t| (t.secs(), t.nanos()));
    assert_eq!(at("1781648722000"), Some((1_781_648_722, 0)));
    assert_eq!(at("+1781648722001"), Some((1_781_648_722, 1_000_000)));
    assert_eq!(at("-1"), Some((-1, 999_000_000)));
    assert_eq!(at("9223372036854775807"), None);
    assert_eq!(at("9223372036854775808"), None);
    assert_eq!(at("2026-04-01T00:00:00Z"), Some((1_775_001_600, 0)));
    assert_eq!(at("2026-04-01T01:30:00.5+01:30"), Some((1_775_001_600, 500_000_000)));
    assert_eq!(at("2016-12-31T23:59:60Z"), Some((1_483_228_799, 1_000_000_000)));
    assert_eq!(at("2026-4-1T0:0:0Z"), None);
    assert_eq!(at("2026-04-01T00:00:00"), None);
    assert_eq!(at(""), None);
    assert_eq!(at("soon"), None);
}

#[test]
fn billing_windows_are_whole_minutes() {
    let at = |secs: i64, nanos: u32| Timestamp::new(secs, nanos);
    assert_eq!(billing_window_minutes(at(0, 0), at(2_592_000, 0)), Some(43_200));
    assert_eq!(billing_window_minutes(at(0, 1), at(60, 0)), None);
    assert_eq!(billing_window_minutes(at(0, 0), at(60, 0)), Some(1));
    assert_eq!(billing_window_minutes(at(0, 0), at(119, 999_999_999)), Some(1));
    assert_eq!(billing_window_minutes(at(60, 0), at(0, 0)), None);
    assert_eq!(billing_window_minutes(at(0, 0), None), None);
    assert_eq!(billing_window_minutes(None, at(0, 0)), None);
    assert_eq!(
        billing_window_minutes(at(-8_334_601_228_800, 0), at(8_210_266_876_799, 0)),
        Some(u32::MAX)
    );
}

#[test]
fn written_milliseconds_are_read_back() {
    let samples = [
        0, 1, -1, 999, -1000, 1_781_648_722_123, -62_135_596_800_000, -8_334_601_228_800_000,
        8_210_266_876_799_999,
    ];
    for ms in samples {
        let t = parse_cursor_date(&format!("{}", ms)).expect("on the calendar");
        assert_eq!(t.secs() * 1000 + (t.nanos() / 1_000_000) as i64, ms);
    }
}

#[test]
fn written_dates_are_read_back() {
    for (secs, nanos) in [(0, 0), (1_775_001_600, 500_000_000), (-62_135_596_800, 1), (59, 7_000)] {
        let written = chrono::DateTime::from_timestamp(secs, nanos).unwrap().to_rfc3339();
        let t = parse_cursor_date(&written).expect("a written date");
        assert_eq!((t.secs(), t.nanos()), (secs, nanos));
    }
}

#[test]
fn cycles_grow_with_their_end_and_keep_their_length_when_moved() {
    let at = |secs: i64, nanos: u32| Timestamp::new(secs, nanos);
    let mut last = Some(0);
    for end in [60, 61, 119, 120, 5_000, 2_592_000] {
        let length = billing_window_minutes(at(0, 0), at(end, 0));
        assert!(length >= last);
        last = length;
        assert_eq!(billing_window_minutes(at(end, 0), at(0, 0)), None);
        assert_eq!(
            billing_window_minutes(at(777, 500_000_000), at(777 + end, 500_000_000)),
            length
        );
    }
    assert_eq!(billing_window_minutes(at(0, 0), at(59, 1_000_000_000)), Some(1));
    assert_eq!(billing_window_minutes(at(0, 0), at(119, 1_500_000_000)), Some(2));
    assert_eq!(billing_window_minutes(at(0, 1), at(119, 1_500_000_000)), Some(2));
    assert_eq!(billing_window_minutes(at(0, 1), at(120, 0)), Some(1));
}

#[test]
fn a_result_can_be_built_for_a_given_cycle() {
    let summary = parse_summary(r#"{ "billingCycleEnd": "1", "planUsage": { "limit": 10 } }"#);
    let start = Timestamp::new(0, 0);
    let end = Timestamp::new(600, 0);
    let (primary, _, _, cost, _, _) = build_result_at(summary, None, start, end);
    assert_eq!(primary.window_minutes, Some(10));
    assert_eq!(primary.resets_at, end);
    assert_eq!(primary.used_percent, UsedPercent::Ratio { part: 0, whole: 10 });
    assert_eq!(cost.unwrap().limit_cents, Some(10));
}
