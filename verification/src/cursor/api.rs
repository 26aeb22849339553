//! What a usage summary means: rate windows, costs, and the name of the plan.

use vstd::prelude::*;

use crate::binary64::{
    lemma_constants, lemma_unsigned_order, magnitude, number, whole, Binary64, HUNDRED, INFINITY,
    ZERO,
};
use crate::cursor::date::{
    billing_window_minutes, cursor_date, parse_cursor_date, window_minutes,
};
use crate::cursor::payload::{IndividualUsage, PlanUsage, UsageSummary, UserInfo};
use crate::error::ProviderError;
use crate::text::{capitalize, capitalized, concat, lowercase, lowercased, text_of};
use crate::timestamp::{point, Timestamp};

verus! {

/// How much of a limit is used.
#[derive(Debug, Clone, Copy, PartialEq, Eq, Structural)]
pub enum UsedPercent {
    /// A percentage.
    Reported(Binary64),
    /// The hundredfold of the quotient of two amounts, of which the second is positive.
    Ratio { part: i64, whole: i64 },
}

/// How much of a limit is used, and when it starts anew.
#[derive(Debug)]
pub struct RateWindow {
    pub used_percent: UsedPercent,
    pub window_minutes: Option<u32>,
    pub resets_at: Option<Timestamp>,
    pub reset_description: Option<String>,
}

/// `RateWindow` as a mathematical value.
pub struct RateWindowView {
    pub used_percent: UsedPercent,
    pub window_minutes: Option<u32>,
    pub resets_at: Option<(int, int)>,
    pub reset_description: Option<Seq<char>>,
}

impl View for RateWindow {
    type V = RateWindowView;

    open spec fn view(&self) -> RateWindowView {
        RateWindowView {
            used_percent: self.used_percent,
            window_minutes: self.window_minutes,
            resets_at: point(self.resets_at),
            reset_description: text_of(self.reset_description),
        }
    }
}

impl RateWindow {
    /// The window with the given details.
    pub fn with_details(
        used_percent: UsedPercent,
        window_minutes: Option<u32>,
        resets_at: Option<Timestamp>,
        reset_description: Option<String>,
    ) -> (res: RateWindow)
        ensures
            res@.used_percent == used_percent,
            res@.window_minutes == window_minutes,
            res@.resets_at == point(resets_at),
            res@.reset_description == text_of(reset_description),
    {
        RateWindow { used_percent, window_minutes, resets_at, reset_description }
    }
}

/// What was spent in a period. Amounts are in cents.
#[derive(Debug)]
pub struct CostSnapshot {
    pub used_cents: i64,
    pub limit_cents: Option<i64>,
    pub currency: &'static str,
    pub period: &'static str,
    pub resets_at: Option<Timestamp>,
}

/// `CostSnapshot` as a mathematical value.
pub struct CostView {
    pub used_cents: i64,
    pub limit_cents: Option<i64>,
    pub currency: Seq<char>,
    pub period: Seq<char>,
    pub resets_at: Option<(int, int)>,
}

impl View for CostSnapshot {
    type V = CostView;

    open spec fn view(&self) -> CostView {
        CostView {
            used_cents: self.used_cents,
            limit_cents: self.limit_cents,
            currency: self.currency@,
            period: self.period@,
            resets_at: point(self.resets_at),
        }
    }
}

/// What a usage summary comes to: the overall window, those of automatic and of API use, the
/// cost, the user's email and the name of the plan.
pub type CursorUsageResult = (
    RateWindow,
    Option<RateWindow>,
    Option<RateWindow>,
    Option<CostSnapshot>,
    Option<String>,
    Option<String>,
);

/// `CursorUsageResult` as a mathematical value.
pub struct UsageView {
    pub primary: RateWindowView,
    pub secondary: Option<RateWindowView>,
    pub model_specific: Option<RateWindowView>,
    pub cost: Option<CostView>,
    pub email: Option<Seq<char>>,
    pub plan_type: Option<Seq<char>>,
}

/// The view of an optional window.
pub open spec fn rate_view(rate: Option<RateWindow>) -> Option<RateWindowView> {
    match rate {
        Some(r) => Some(r@),
        None => None,
    }
}

/// The view of an optional cost.
pub open spec fn cost_view(cost: Option<CostSnapshot>) -> Option<CostView> {
    match cost {
        Some(c) => Some(c@),
        None => None,
    }
}

/// The view of a result.
pub open spec fn usage_view(result: CursorUsageResult) -> UsageView {
    UsageView {
        primary: result.0@,
        secondary: rate_view(result.1),
        model_specific: rate_view(result.2),
        cost: cost_view(result.3),
        email: text_of(result.4),
        plan_type: text_of(result.5),
    }
}

/// The number brought into the range from 0 to 100; 0 for what is infinite or no number. A
/// number in the range stays as it is.
pub open spec fn normalized(value: Binary64) -> Binary64 {
    if !value.finite() || value.value() < 0 {
        number(ZERO)
    } else if value.value() > whole(100) {
        number(HUNDRED)
    } else {
        value
    }
}

/// A reported percentage brought into the range from 0 to 100. Percentages are reported in
/// percentage units, even below one.
pub fn normalize_cursor_percent(value: Binary64) -> (res: Binary64)
    ensures
        res == normalized(value),
{
    proof {
        lemma_constants();
    }
    let zero = Binary64 { bits: ZERO };
    let hundred = Binary64 { bits: HUNDRED };
    if !value.is_finite() || value.is_below(zero) {
        zero
    } else if hundred.is_below(value) {
        hundred
    } else {
        value
    }
}

/// `a`, or 0 where it is absent.
pub open spec fn or_zero(a: Option<i64>) -> i64 {
    match a {
        Some(n) => n,
        None => 0,
    }
}

/// The percentage 0.
pub open spec fn none_used() -> UsedPercent {
    UsedPercent::Reported(number(ZERO))
}

/// How much is used by what the desktop reports: the included spend against the limit, or
/// without a limit the percentage reported.
pub open spec fn desktop_percent(plan: PlanUsage) -> UsedPercent {
    if or_zero(plan.limit) > 0 {
        UsedPercent::Ratio { part: or_zero(plan.included_spend), whole: or_zero(plan.limit) }
    } else {
        match plan.total_percent_used {
            Some(p) => UsedPercent::Reported(normalized(p)),
            None => none_used(),
        }
    }
}

/// The limit of a plan by what the web reports: the total of its breakdown, or else its own
/// limit.
pub open spec fn web_limit(plan: PlanUsage) -> i64 {
    match plan.breakdown {
        Some(b) => match b.total {
            Some(total) => total,
            None => or_zero(plan.limit),
        },
        None => or_zero(plan.limit),
    }
}

/// How much is used by what the web reports: the percentage reported, or without one the amount
/// used against the limit. Without a limit nothing counts as used.
pub open spec fn web_percent(plan: PlanUsage, is_unlimited: Option<bool>) -> UsedPercent {
    match plan.total_percent_used {
        Some(p) => UsedPercent::Reported(normalized(p)),
        None => if is_unlimited != Some(true) && web_limit(plan) > 0 {
            UsedPercent::Ratio { part: or_zero(plan.used), whole: web_limit(plan) }
        } else {
            none_used()
        },
    }
}

/// The window of a percentage.
pub open spec fn window_of(
    used_percent: UsedPercent,
    minutes: Option<u32>,
    end: Option<(int, int)>,
) -> RateWindowView {
    RateWindowView {
        used_percent,
        window_minutes: minutes,
        resets_at: end,
        reset_description: None,
    }
}

/// The window of a reported percentage, if there is one.
pub open spec fn lane_of(
    reported: Option<Binary64>,
    minutes: Option<u32>,
    end: Option<(int, int)>,
) -> Option<RateWindowView> {
    match reported {
        Some(p) => Some(window_of(UsedPercent::Reported(normalized(p)), minutes, end)),
        None => None,
    }
}

/// The cost of an amount spent against a limit, which counts if it is positive.
pub open spec fn cost_of(used: i64, limit: i64, end: Option<(int, int)>) -> CostView {
    CostView {
        used_cents: used,
        limit_cents: if limit > 0 {
            Some(limit)
        } else {
            None
        },
        currency: "USD"@,
        period: "Monthly"@,
        resets_at: end,
    }
}

/// The name of a plan, by its membership type in lower case.
pub open spec fn plan_name(membership: Seq<char>) -> Seq<char> {
    if membership == "enterprise"@ {
        "Cursor Enterprise"@
    } else if membership == "pro"@ {
        "Cursor Pro"@
    } else if membership == "hobby"@ {
        "Cursor Hobby"@
    } else if membership == "team"@ {
        "Cursor Team"@
    } else {
        "Cursor "@ + capitalized(membership)
    }
}

/// The name of the plan of an optional membership type.
pub open spec fn plan_type(membership: Option<Seq<char>>) -> Option<Seq<char>> {
    match membership {
        Some(m) => Some(plan_name(lowercased(m))),
        None => None,
    }
}

/// The plan that a summary is read by, if it has one: what the desktop reports, or else the plan
/// of the individual account.
pub open spec fn chosen_plan(summary: UsageSummary) -> Option<PlanUsage> {
    match summary.plan_usage {
        Some(plan) => Some(plan),
        None => match summary.individual_usage {
            Some(individual) => individual.plan,
            None => None,
        },
    }
}

/// How much of the plan is used.
pub open spec fn primary_percent(summary: UsageSummary) -> UsedPercent {
    match chosen_plan(summary) {
        Some(plan) => if summary.plan_usage is Some {
            desktop_percent(plan)
        } else {
            web_percent(plan, summary.is_unlimited)
        },
        None => none_used(),
    }
}

/// What the plan costs.
pub open spec fn plan_cost(summary: UsageSummary, end: Option<(int, int)>) -> Option<CostView> {
    match chosen_plan(summary) {
        Some(plan) => if summary.plan_usage is Some {
            Some(cost_of(or_zero(plan.total_spend), or_zero(plan.limit), end))
        } else {
            Some(cost_of(or_zero(plan.used), web_limit(plan), end))
        },
        None => None,
    }
}

/// The email of an optional user.
pub open spec fn email_of(user: Option<UserInfo>) -> Option<Seq<char>> {
    match user {
        Some(u) => text_of(u.email),
        None => None,
    }
}

/// What a summary comes to, with the billing cycle from `start` to `end`.
pub open spec fn usage_at(
    summary: UsageSummary,
    user: Option<UserInfo>,
    start: Option<(int, int)>,
    end: Option<(int, int)>,
) -> UsageView {
    let minutes = window_minutes(start, end);
    let plan = chosen_plan(summary);
    UsageView {
        primary: window_of(primary_percent(summary), minutes, end),
        secondary: match plan {
            Some(p) => lane_of(p.auto_percent_used, minutes, end),
            None => None,
        },
        model_specific: match plan {
            Some(p) => lane_of(p.api_percent_used, minutes, end),
            None => None,
        },
        cost: plan_cost(summary, end),
        email: email_of(user),
        plan_type: plan_type(text_of(summary.membership_type)),
    }
}

/// The point that an optional date names.
pub open spec fn optional_date(date: Option<String>) -> Option<(int, int)> {
    match date {
        Some(s) => cursor_date(s@),
        None => None,
    }
}

/// What a summary comes to.
pub open spec fn usage_of(summary: UsageSummary, user: Option<UserInfo>) -> UsageView {
    usage_at(
        summary,
        user,
        optional_date(summary.billing_cycle_start),
        optional_date(summary.billing_cycle_end),
    )
}

/// `a`, or 0 where it is absent.
fn amount(a: Option<i64>) -> (res: i64)
    ensures
        res == or_zero(a),
{
    match a {
        Some(n) => n,
        None => 0,
    }
}

/// The point that an optional date names.
fn parse_optional_date(date: &Option<String>) -> (res: Option<Timestamp>)
    ensures
        point(res) == optional_date(*date),
{
    match date {
        Some(s) => parse_cursor_date(s.as_str()),
        None => None,
    }
}

/// The window of a reported percentage, if there is one.
fn lane(reported: Option<Binary64>, minutes: Option<u32>, end: Option<Timestamp>) -> (res: Option<
    RateWindow,
>)
    ensures
        rate_view(res) == lane_of(reported, minutes, point(end)),
{
    match reported {
        Some(p) => {
            let percent = UsedPercent::Reported(normalize_cursor_percent(p));
            Some(RateWindow::with_details(percent, minutes, end, None))
        },
        None => None,
    }
}

/// The cost of an amount spent against a limit.
fn monthly_cost(used_cents: i64, limit: i64, resets_at: Option<Timestamp>) -> (res: CostSnapshot)
    ensures
        res@ == cost_of(used_cents, limit, point(resets_at)),
{
    let limit_cents: Option<i64> = if limit > 0 {
        Some(limit)
    } else {
        None
    };
    CostSnapshot { used_cents, limit_cents, currency: "USD", period: "Monthly", resets_at }
}

/// The limit of a plan by what the web reports.
fn web_plan_limit(plan: &PlanUsage) -> (res: i64)
    ensures
        res == web_limit(*plan),
{
    match &plan.breakdown {
        Some(b) => match b.total {
            Some(total) => total,
            None => amount(plan.limit),
        },
        None => amount(plan.limit),
    }
}

/// How much is used by what the desktop reports.
pub fn desktop_used_percent(plan: &PlanUsage) -> (res: UsedPercent)
    ensures
        res == desktop_percent(*plan),
{
    let limit: i64 = amount(plan.limit);
    if limit > 0 {
        UsedPercent::Ratio { part: amount(plan.included_spend), whole: limit }
    } else {
        match plan.total_percent_used {
            Some(p) => UsedPercent::Reported(normalize_cursor_percent(p)),
            None => UsedPercent::Reported(Binary64 { bits: ZERO }),
        }
    }
}

/// How much is used by what the web reports.
pub fn web_used_percent(plan: &PlanUsage, is_unlimited: Option<bool>) -> (res: UsedPercent)
    ensures
        res == web_percent(*plan, is_unlimited),
{
    if let Some(p) = plan.total_percent_used {
        return UsedPercent::Reported(normalize_cursor_percent(p));
    }
    let unlimited: bool = match is_unlimited {
        Some(b) => b,
        None => false,
    };
    let limit: i64 = web_plan_limit(plan);
    if !unlimited && limit > 0 {
        UsedPercent::Ratio { part: amount(plan.used), whole: limit }
    } else {
        UsedPercent::Reported(Binary64 { bits: ZERO })
    }
}

/// The name of a plan, by its membership type in lower case.
pub fn plan_label(membership: &str) -> (res: String)
    ensures
        res@ == plan_name(membership@),
{
    let membership = membership.to_owned();
    if membership == "enterprise".to_owned() {
        "Cursor Enterprise".to_owned()
    } else if membership == "pro".to_owned() {
        "Cursor Pro".to_owned()
    } else if membership == "hobby".to_owned() {
        "Cursor Hobby".to_owned()
    } else if membership == "team".to_owned() {
        "Cursor Team".to_owned()
    } else {
        concat("Cursor ", capitalize(membership.as_str()).as_str())
    }
}

/// What a summary comes to, with the billing cycle from `billing_start` to `billing_end`.
pub fn build_result_at(
    summary: UsageSummary,
    user_info: Option<UserInfo>,
    billing_start: Option<Timestamp>,
    billing_end: Option<Timestamp>,
) -> (res: CursorUsageResult)
    ensures
        usage_view(res) == usage_at(
            summary,
            user_info,
            point(billing_start),
            point(billing_end),
        ),
{
    let minutes: Option<u32> = billing_window_minutes(billing_start, billing_end);
    let (percent_used, secondary, model_specific, cost) = if let Some(plan) = &summary.plan_usage {
        (
            desktop_used_percent(plan),
            lane(plan.auto_percent_used, minutes, billing_end),
            lane(plan.api_percent_used, minutes, billing_end),
            Some(monthly_cost(amount(plan.total_spend), amount(plan.limit), billing_end)),
        )
    } else if let Some(individual) = &summary.individual_usage {
        if let Some(plan) = &individual.plan {
            (
                web_used_percent(plan, summary.is_unlimited),
                lane(plan.auto_percent_used, minutes, billing_end),
                lane(plan.api_percent_used, minutes, billing_end),
                Some(monthly_cost(amount(plan.used), web_plan_limit(plan), billing_end)),
            )
        } else {
            (UsedPercent::Reported(Binary64 { bits: ZERO }), None, None, None)
        }
    } else {
        (UsedPercent::Reported(Binary64 { bits: ZERO }), None, None, None)
    };
    let primary = RateWindow::with_details(percent_used, minutes, billing_end, None);
    let plan_type: Option<String> = match &summary.membership_type {
        Some(t) => Some(plan_label(lowercase(t.as_str()).as_str())),
        None => None,
    };
    let email: Option<String> = match user_info {
        Some(u) => u.email,
        None => None,
    };
    (primary, secondary, model_specific, cost, email, plan_type)
}

/// Reads what Cursor's servers say of a user's usage.
#[derive(Debug, Clone, Copy)]
pub struct CursorApi {}

impl CursorApi {
    /// A reader.
    pub fn new() -> (res: CursorApi)
        ensures
            res == (CursorApi {  }),
    {
        CursorApi {  }
    }

    /// What a usage summary and, if known, the user come to. There is no summary of which nothing
    /// can be made.
    pub fn build_result(
        &self,
        summary: UsageSummary,
        user_info: Option<UserInfo>,
    ) -> (res: Result<CursorUsageResult, ProviderError>)
        ensures
            res matches Ok(r) && usage_view(r) == usage_of(summary, user_info),
    {
        let billing_end: Option<Timestamp> = parse_optional_date(&summary.billing_cycle_end);
        let billing_start: Option<Timestamp> = parse_optional_date(&summary.billing_cycle_start);
        Ok(build_result_at(summary, user_info, billing_start, billing_end))
    }
}

impl Default for CursorApi {
    /// A reader.
    fn default() -> (res: CursorApi)
        ensures
            res == (CursorApi {  }),
    {
        CursorApi::new()
    }
}

/// A normalized percentage is finite and between 0 and 100, and normalizing it again changes
/// nothing.
pub proof fn law_normalized_is_a_percentage(value: Binary64)
    ensures
        normalized(value).finite(),
        0 <= normalized(value).value() <= whole(100),
        normalized(normalized(value)) == normalized(value),
{
    lemma_constants();
    lemma_unsigned_order(0, magnitude(value.bits));
    lemma_unsigned_order(HUNDRED as int, INFINITY as int);
    assert(whole(100) >= 0) by {
        lemma_unsigned_order(0, HUNDRED as int);
    }
}

/// A finite percentage between 0 and 100 is taken as it is, however small.
pub proof fn law_percentages_are_kept(value: Binary64)
    requires
        value.finite(),
        0 <= value.value() <= whole(100),
    ensures
        normalized(value) == value,
{
}

/// Normalizing keeps the order of numbers.
pub proof fn law_normalizing_keeps_order(a: Binary64, b: Binary64)
    requires
        a.finite(),
        b.finite(),
        a.value() <= b.value(),
    ensures
        normalized(a).value() <= normalized(b).value(),
{
    lemma_constants();
    assert(whole(100) >= 0) by {
        lemma_unsigned_order(0, HUNDRED as int);
    }
}

/// What the desktop reports goes before what the web reports: with it, the individual account
/// does not count.
pub proof fn law_desktop_plan_goes_first(
    a: UsageSummary,
    b: UsageSummary,
    user: Option<UserInfo>,
)
    requires
        a.plan_usage is Some,
        b.plan_usage == a.plan_usage,
        b.billing_cycle_start == a.billing_cycle_start,
        b.billing_cycle_end == a.billing_cycle_end,
        b.membership_type == a.membership_type,
    ensures
        usage_of(a, user) == usage_of(b, user),
{
}

/// What is paid for on demand, the team's usage and the type of the limit do not count: two
/// summaries that agree in the rest come to the same.
pub proof fn law_on_demand_does_not_count(
    a: UsageSummary,
    b: UsageSummary,
    user: Option<UserInfo>,
)
    requires
        b.billing_cycle_start == a.billing_cycle_start,
        b.billing_cycle_end == a.billing_cycle_end,
        b.membership_type == a.membership_type,
        b.is_unlimited == a.is_unlimited,
        b.plan_usage == a.plan_usage,
        chosen_plan(b) == chosen_plan(a),
    ensures
        usage_of(a, user) == usage_of(b, user),
{
}

/// Without a plan nothing is used, there are no further windows and no cost.
pub proof fn law_no_plan_no_usage(summary: UsageSummary, user: Option<UserInfo>)
    requires
        chosen_plan(summary) is None,
    ensures
        usage_of(summary, user).primary.used_percent == none_used(),
        usage_of(summary, user).secondary is None,
        usage_of(summary, user).model_specific is None,
        usage_of(summary, user).cost is None,
{
}

/// A plan always has a cost, and a quotient is only ever taken by a positive amount, which is
/// then also the limit of the cost.
pub proof fn law_ratio_is_by_the_cost_limit(summary: UsageSummary, user: Option<UserInfo>)
    ensures
        chosen_plan(summary) is Some <==> usage_of(summary, user).cost is Some,
        usage_of(summary, user).primary.used_percent matches UsedPercent::Ratio { whole, .. }
            ==> whole > 0 && usage_of(summary, user).cost is Some && (usage_of(
            summary,
            user,
        ).cost->0).limit_cents == Some(whole),
{
}

/// All windows of a summary, and its cost, start anew at the same time.
pub proof fn law_windows_reset_together(summary: UsageSummary, user: Option<UserInfo>)
    ensures
        ({
            let u = usage_of(summary, user);
            &&& u.secondary matches Some(w) ==> w.resets_at == u.primary.resets_at
                && w.window_minutes == u.primary.window_minutes
            &&& u.model_specific matches Some(w) ==> w.resets_at == u.primary.resets_at
                && w.window_minutes == u.primary.window_minutes
            &&& u.cost matches Some(c) ==> c.resets_at == u.primary.resets_at
        }),
{
}

/// Every plan is named after Cursor.
pub proof fn law_plans_are_cursors(membership: Seq<char>)
    ensures
        "Cursor "@.is_prefix_of(plan_name(membership)),
{
    reveal_strlit("Cursor ");
    reveal_strlit("Cursor Enterprise");
    reveal_strlit("Cursor Pro");
    reveal_strlit("Cursor Hobby");
    reveal_strlit("Cursor Team");
    assert("Cursor "@ =~= plan_name(membership).subrange(0, 7));
}

/// A percentage that is no finite number counts as none; one below 0 as 0, one above 100 as 100.
pub proof fn law_percentages_are_limited(value: Binary64)
    ensures
        !value.finite() ==> normalized(value).value() == 0,
        value.finite() && value.value() < 0 ==> normalized(value).value() == 0,
        value.finite() && value.value() > whole(100) ==> normalized(value).value() == whole(100),
{
    lemma_constants();
}

/// Every window of a result, and its cost, start anew when the billing cycle ends, by the date in
/// the summary; each window is as long as the cycle, from its start to its end; and there is no
/// description.
pub proof fn law_windows_by_cycle(
    summary: UsageSummary,
    user: Option<UserInfo>,
    r: CursorUsageResult,
    start: Option<(int, int)>,
    end: Option<(int, int)>,
)
    requires
        usage_view(r) == usage_of(summary, user),
        start == (match summary.billing_cycle_start {
            Some(s) => cursor_date(s@),
            None => None,
        }),
        end == (match summary.billing_cycle_end {
            Some(s) => cursor_date(s@),
            None => None,
        }),
    ensures
        r.0.resets_at is Some <==> end is Some,
        r.0.resets_at matches Some(t) ==> end == Some(t@),
        r.0.window_minutes == window_minutes(start, end),
        r.0.reset_description is None,
        r.1 matches Some(w) ==> {
            &&& w.resets_at is Some <==> end is Some
            &&& w.resets_at matches Some(t) ==> end == Some(t@)
            &&& w.window_minutes == window_minutes(start, end)
            &&& w.reset_description is None
        },
        r.2 matches Some(w) ==> {
            &&& w.resets_at is Some <==> end is Some
            &&& w.resets_at matches Some(t) ==> end == Some(t@)
            &&& w.window_minutes == window_minutes(start, end)
            &&& w.reset_description is None
        },
        r.3 matches Some(c) ==> {
            &&& c.resets_at is Some <==> end is Some
            &&& c.resets_at matches Some(t) ==> end == Some(t@)
        },
{
}

/// What is used of a desktop plan with a limit is the included spend against that limit, and
/// nothing else of the plan counts. Without a limit it is the percentage reported, or none.
pub proof fn law_desktop_plan_by_fields(
    summary: UsageSummary,
    plan: PlanUsage,
    user: Option<UserInfo>,
    r: CursorUsageResult,
)
    requires
        usage_view(r) == usage_of(summary, user),
        summary.plan_usage == Some(plan),
    ensures
        plan.limit matches Some(limit) && limit > 0 ==> (r.0.used_percent
            matches UsedPercent::Ratio { part, whole } && whole == plan.limit->0 && part == (
        match plan.included_spend {
            Some(n) => n,
            None => 0,
        })),
        !(plan.limit matches Some(limit) && limit > 0) ==> (r.0.used_percent
            matches UsedPercent::Reported(p) && match plan.total_percent_used {
            Some(q) => p == normalized(q),
            None => p.value() == 0,
        }),
        r.3 matches Some(c) && c.used_cents == (match plan.total_spend {
            Some(n) => n,
            None => 0,
        }) && c.limit_cents == (match plan.limit {
            Some(n) => if n > 0 {
                Some(n)
            } else {
                None
            },
            None => None,
        }),
{
    lemma_constants();
}

/// What is used of a web plan is the percentage reported, whatever the amounts are and even if the
/// plan is unlimited. Without it, it is the amount used against the total of the breakdown or else
/// the limit; and none, where the plan is unlimited or that is not positive.
pub proof fn law_web_plan_by_fields(
    summary: UsageSummary,
    individual: IndividualUsage,
    plan: PlanUsage,
    user: Option<UserInfo>,
    r: CursorUsageResult,
    limit: i64,
)
    requires
        usage_view(r) == usage_of(summary, user),
        summary.plan_usage is None,
        summary.individual_usage == Some(individual),
        individual.plan == Some(plan),
        limit == (if plan.breakdown is Some && (plan.breakdown->0).total is Some {
            (plan.breakdown->0).total->0
        } else if plan.limit is Some {
            plan.limit->0
        } else {
            0
        }),
    ensures
        plan.total_percent_used matches Some(q) ==> r.0.used_percent == UsedPercent::Reported(
            normalized(q),
        ),
        plan.total_percent_used is None && summary.is_unlimited != Some(true) && limit > 0 ==> (
        r.0.used_percent matches UsedPercent::Ratio { part, whole } && whole == limit && part == (
        match plan.used {
            Some(n) => n,
            None => 0,
        })),
        plan.total_percent_used is None && (summary.is_unlimited == Some(true) || limit <= 0) ==> (
        r.0.used_percent matches UsedPercent::Reported(p) && p.value() == 0),
        r.3 matches Some(c) && c.used_cents == (match plan.used {
            Some(n) => n,
            None => 0,
        }) && c.limit_cents == (if limit > 0 {
            Some(limit)
        } else {
            None
        }),
{
    lemma_constants();
}

/// The second window is of automatic use and the third of API use: each is there exactly if the
/// plan reports its percentage, and holds that one.
pub proof fn law_lanes_by_fields(
    summary: UsageSummary,
    plan: PlanUsage,
    user: Option<UserInfo>,
    r: CursorUsageResult,
)
    requires
        usage_view(r) == usage_of(summary, user),
        summary.plan_usage == Some(plan) || (summary.plan_usage is None
            && summary.individual_usage is Some && (summary.individual_usage->0).plan == Some(
            plan,
        )),
    ensures
        r.1 is Some <==> plan.auto_percent_used is Some,
        r.1 matches Some(w) ==> w.used_percent == UsedPercent::Reported(
            normalized(plan.auto_percent_used->0),
        ),
        r.2 is Some <==> plan.api_percent_used is Some,
        r.2 matches Some(w) ==> w.used_percent == UsedPercent::Reported(
            normalized(plan.api_percent_used->0),
        ),
{
}

/// Without any plan the first window shows that nothing is used, and there is nothing else but the
/// email and the name of the plan.
pub proof fn law_result_without_plan(
    summary: UsageSummary,
    user: Option<UserInfo>,
    r: CursorUsageResult,
)
    requires
        usage_view(r) == usage_of(summary, user),
        summary.plan_usage is None,
        summary.individual_usage is None || (summary.individual_usage->0).plan is None,
    ensures
        r.0.used_percent matches UsedPercent::Reported(p) && p.value() == 0,
        r.1 is None,
        r.2 is None,
        r.3 is None,
{
    lemma_constants();
}

/// Costs are monthly and in dollars.
pub proof fn law_costs_are_monthly_dollars(
    summary: UsageSummary,
    user: Option<UserInfo>,
    r: CursorUsageResult,
)
    requires
        usage_view(r) == usage_of(summary, user),
    ensures
        r.3 matches Some(c) ==> c.currency@ == "USD"@ && c.period@ == "Monthly"@,
{
}

/// The email is the user's, if the user is known and has one; the plan is named after the
/// membership type, if there is one.
pub proof fn law_names_by_fields(
    summary: UsageSummary,
    user: Option<UserInfo>,
    r: CursorUsageResult,
)
    requires
        usage_view(r) == usage_of(summary, user),
    ensures
        r.4 is Some <==> user is Some && (user->0).email is Some,
        r.4 matches Some(e) ==> e@ == ((user->0).email->0)@,
        r.5 is Some <==> summary.membership_type is Some,
        r.5 matches Some(n) ==> n@ == plan_name(lowercased((summary.membership_type->0)@)),
{
}

/// Four membership types have names of their own, and every other is named by itself, capitalized.
pub proof fn law_plans_by_name(membership: Seq<char>)
    ensures
        membership == "enterprise"@ ==> plan_name(membership) == "Cursor Enterprise"@,
        membership == "pro"@ ==> plan_name(membership) == "Cursor Pro"@,
        membership == "hobby"@ ==> plan_name(membership) == "Cursor Hobby"@,
        membership == "team"@ ==> plan_name(membership) == "Cursor Team"@,
        membership != "enterprise"@ && membership != "pro"@ && membership != "hobby"@ && membership
            != "team"@ ==> plan_name(membership) == "Cursor "@ + capitalized(membership),
{
    reveal_strlit("enterprise");
    reveal_strlit("pro");
    reveal_strlit("hobby");
    reveal_strlit("team");
    assert("enterprise"@.len() == 10 && "pro"@.len() == 3 && "hobby"@.len() == 5 && "team"@.len()
        == 4);
}

/// What is spent beyond the plan counts for the cost and for nothing else: desktop plans that
/// differ only in the total spend have the same windows.
pub proof fn law_total_spend_is_only_cost(
    summary: UsageSummary,
    plan: PlanUsage,
    total_spend: Option<i64>,
    user: Option<UserInfo>,
)
    requires
        summary.plan_usage == Some(plan),
    ensures
        ({
            let other = UsageSummary {
                plan_usage: Some(PlanUsage { total_spend, ..plan }),
                ..summary
            };
            let (a, b) = (usage_of(summary, user), usage_of(other, user));
            &&& a.primary == b.primary
            &&& a.secondary == b.secondary
            &&& a.model_specific == b.model_specific
            &&& a.email == b.email
            &&& a.plan_type == b.plan_type
        }),
{
}

/// Whatever else a desktop plan holds, an included spend and a positive limit are read as the ratio
/// of the two.
pub proof fn law_included_spend_counts_alone(
    summary: UsageSummary,
    plan: PlanUsage,
    included_spend: i64,
    limit: i64,
    user: Option<UserInfo>,
)
    requires
        summary.plan_usage == Some(plan),
        limit > 0,
    ensures
        usage_of(
            (UsageSummary {
                plan_usage: Some(
                    PlanUsage {
                        included_spend: Some(included_spend),
                        limit: Some(limit),
                        ..plan
                    },
                ),
                ..summary
            }),
            user,
        ).primary.used_percent == (UsedPercent::Ratio { part: included_spend, whole: limit }),
{
}

/// A cycle that is given counts in place of the dates of the summary, and nothing else differs.
pub proof fn law_given_cycle_counts(
    summary: UsageSummary,
    user: Option<UserInfo>,
    start: Option<(int, int)>,
    end: Option<(int, int)>,
)
    ensures
        ({
            let (a, b) = (usage_at(summary, user, start, end), usage_of(summary, user));
            &&& a.primary.used_percent == b.primary.used_percent
            &&& a.primary.resets_at == end
            &&& a.primary.window_minutes == window_minutes(start, end)
            &&& a.secondary is Some <==> b.secondary is Some
            &&& a.secondary matches Some(w) ==> w.used_percent == (b.secondary->0).used_percent
                && w.resets_at == end
            &&& a.model_specific is Some <==> b.model_specific is Some
            &&& a.model_specific matches Some(w) ==> w.used_percent == (
            b.model_specific->0).used_percent && w.resets_at == end
            &&& a.cost is Some <==> b.cost is Some
            &&& a.cost matches Some(c) ==> c.used_cents == (b.cost->0).used_cents && c.limit_cents
                == (b.cost->0).limit_cents && c.resets_at == end
            &&& a.email == b.email
            &&& a.plan_type == b.plan_type
        }),
{
}

} // verus!
