//! Subscription records and their validation.

use vstd::prelude::*;
use vstd::string::StringExecFns;

use crate::text::{all_space, str_eq};

verus! {

/// A subscription row, as the caller sees it.
pub struct Subscription {
    pub id: String,
    pub customer_id: String,
    pub customer_name: Option<String>,
    pub customer_human_id: Option<String>,
    pub plan_type: String,
    pub start_date: String,
    pub end_date: Option<String>,
    pub hours_allowance: Option<i32>,
    pub is_active: bool,
    pub created_at: String,
}

/// A new subscription, as the caller supplies it.
pub struct CreateSubscription {
    pub customer_id: String,
    pub plan_type: String,
    pub start_date: String,
    pub end_date: Option<String>,
    pub hours_allowance: Option<i32>,
}

/// A subscription patch: each field optional.
pub struct UpdateSubscription {
    pub plan_type: Option<String>,
    pub start_date: Option<String>,
    pub end_date: Option<String>,
    pub hours_allowance: Option<i32>,
    pub is_active: Option<bool>,
}

pub open spec fn plan_type_ok(s: Seq<char>) -> bool {
    s == "weekly"@ || s == "half-monthly"@ || s == "monthly"@
}

/// An hours allowance of zero up to a full month.
pub open spec fn hours_ok(h: i32) -> bool {
    0 <= h <= 744
}

/// Every field of a new subscription acceptable.
pub open spec fn create_subscription_ok(d: CreateSubscription) -> bool {
    &&& !all_space(d.customer_id@)
    &&& plan_type_ok(d.plan_type@)
    &&& !all_space(d.start_date@)
    &&& match d.hours_allowance {
        Some(h) => hours_ok(h),
        None => true,
    }
}

/// Every supplied field of a subscription patch acceptable.
pub open spec fn update_subscription_ok(d: UpdateSubscription) -> bool {
    &&& match d.plan_type {
        Some(p) => plan_type_ok(p@),
        None => true,
    }
    &&& match d.hours_allowance {
        Some(h) => hours_ok(h),
        None => true,
    }
}

fn check_plan(s: &str) -> (r: bool)
    ensures
        r == plan_type_ok(s@),
{
    str_eq(s, "weekly") || str_eq(s, "half-monthly") || str_eq(s, "monthly")
}

fn check_blank_sub(s: &str) -> (r: bool)
    ensures
        r == all_space(s@),
{
    let v = crate::text::chars_vec(s);
    let tv = crate::text::trim_chars(&v);
    proof {
        crate::text::lemma_trim_empty_iff_all_space(v@);
    }
    tv.len() == 0
}

/// Validate a new subscription: named customer, known plan, a start date,
/// and an allowance within one month of hours.
pub fn validate_subscription_data(data: &CreateSubscription) -> (r: Result<(), String>)
    ensures
        r is Ok <==> create_subscription_ok(*data),
{
    if check_blank_sub(data.customer_id.as_str()) {
        return Err(String::from_str("Customer ID is required"));
    }
    if !check_plan(data.plan_type.as_str()) {
        return Err(String::from_str("Invalid plan type. Must be: weekly, half-monthly, or monthly"));
    }
    if check_blank_sub(data.start_date.as_str()) {
        return Err(String::from_str("Start date is required"));
    }
    match &data.hours_allowance {
        Some(hours) => {
            if *hours < 0 {
                return Err(String::from_str("Hours allowance cannot be negative"));
            }
            if *hours > 744 {
                return Err(String::from_str("Hours allowance cannot exceed 744 hours (31 days)"));
            }
        },
        None => {},
    }
    Ok(())
}

/// Validate a subscription patch: each supplied field as in
/// [`validate_subscription_data`].
pub fn validate_update_subscription_data(data: &UpdateSubscription) -> (r: Result<(), String>)
    ensures
        r is Ok <==> update_subscription_ok(*data),
{
    match &data.plan_type {
        Some(plan) => {
            if !check_plan(plan.as_str()) {
                return Err(
                    String::from_str("Invalid plan type. Must be: weekly, half-monthly, or monthly"),
                );
            }
        },
        None => {},
    }
    match &data.hours_allowance {
        Some(hours) => {
            if *hours < 0 {
                return Err(String::from_str("Hours allowance cannot be negative"));
            }
            if *hours > 744 {
                return Err(String::from_str("Hours allowance cannot exceed 744 hours (31 days)"));
            }
        },
        None => {},
    }
    Ok(())
}

} // verus!
