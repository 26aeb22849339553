//! The answers of Cursor's servers.

use vstd::prelude::*;

use crate::binary64::Binary64;

verus! {

/// A user's usage in the current billing cycle.
#[derive(Debug)]
pub struct UsageSummary {
    pub billing_cycle_start: Option<String>,
    pub billing_cycle_end: Option<String>,
    pub membership_type: Option<String>,
    pub limit_type: Option<String>,
    pub is_unlimited: Option<bool>,
    pub individual_usage: Option<IndividualUsage>,
    pub plan_usage: Option<PlanUsage>,
    pub team_usage: Option<TeamUsage>,
}

/// The usage of a user's own account.
#[derive(Debug)]
pub struct IndividualUsage {
    pub plan: Option<PlanUsage>,
    pub on_demand: Option<OnDemandUsage>,
}

/// What of a plan is used up. Amounts are in cents.
#[derive(Debug)]
pub struct PlanUsage {
    pub enabled: Option<bool>,
    pub used: Option<i64>,
    pub limit: Option<i64>,
    pub remaining: Option<i64>,
    pub breakdown: Option<PlanBreakdown>,
    pub auto_percent_used: Option<Binary64>,
    pub api_percent_used: Option<Binary64>,
    pub total_percent_used: Option<Binary64>,
    pub total_spend: Option<i64>,
    pub included_spend: Option<i64>,
}

/// What a plan's limit is made of, in cents.
#[derive(Debug)]
pub struct PlanBreakdown {
    pub included: Option<i64>,
    pub bonus: Option<i64>,
    pub total: Option<i64>,
}

/// What is paid for beyond a plan, in cents.
#[derive(Debug)]
pub struct OnDemandUsage {
    pub enabled: Option<bool>,
    pub used: Option<i64>,
    pub limit: Option<i64>,
    pub remaining: Option<i64>,
}

/// The usage of a team.
#[derive(Debug)]
pub struct TeamUsage {
    pub on_demand: Option<OnDemandUsage>,
}

/// Who the user is.
#[derive(Debug)]
pub struct UserInfo {
    pub email: Option<String>,
    pub email_verified: Option<bool>,
    pub name: Option<String>,
    pub sub: Option<String>,
    pub created_at: Option<String>,
    pub updated_at: Option<String>,
    pub picture: Option<String>,
}

} // verus!
