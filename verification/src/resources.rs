//! Resource input records and their validation.

use vstd::prelude::*;
use vstd::string::StringExecFns;

use crate::text::str_eq;
use crate::customers::name_ok;

verus! {

/// A new bookable resource, as the caller supplies it.
pub struct CreateResource {
    pub name: String,
    pub resource_type: String,
}

/// A resource patch: each field optional; the rate is in cents.
pub struct UpdateResource {
    pub name: Option<String>,
    pub resource_type: Option<String>,
    pub is_available: Option<bool>,
    pub rate_per_hour: Option<i64>,
}

pub open spec fn resource_type_ok(s: Seq<char>) -> bool {
    s == "seat"@ || s == "desk"@ || s == "room"@
}

/// Every field of a new resource acceptable.
pub open spec fn create_resource_ok(d: CreateResource) -> bool {
    &&& name_ok(d.name@)
    &&& resource_type_ok(d.resource_type@)
}

/// Every supplied field of a resource patch acceptable.
pub open spec fn update_resource_ok(d: UpdateResource) -> bool {
    &&& match d.name {
        Some(n) => name_ok(n@),
        None => true,
    }
    &&& match d.resource_type {
        Some(t) => resource_type_ok(t@),
        None => true,
    }
    &&& match d.rate_per_hour {
        Some(r) => r >= 0,
        None => true,
    }
}

fn check_resource_name(name: &str) -> (r: Result<(), String>)
    ensures
        r is Ok <==> name_ok(name@),
{
    let tv = crate::text::trim_chars(&crate::text::chars_vec(name));
    if tv.len() < 2 {
        return Err(String::from_str("Name must be at least 2 characters"));
    }
    if tv.len() > 100 {
        return Err(String::from_str("Name is too long (max 100 characters)"));
    }
    Ok(())
}

fn check_resource_type(t: &str) -> (r: Result<(), String>)
    ensures
        r is Ok <==> resource_type_ok(t@),
{
    if str_eq(t, "seat") || str_eq(t, "desk") || str_eq(t, "room") {
        Ok(())
    } else {
        Err(String::from_str("Resource type must be 'seat', 'desk', or 'room'"))
    }
}

/// Validate a new resource record: name length and resource type.
pub fn validate_resource_data(data: &CreateResource) -> (r: Result<(), String>)
    ensures
        r is Ok <==> create_resource_ok(*data),
{
    if let Err(e) = check_resource_name(data.name.as_str()) {
        return Err(e);
    }
    if let Err(e) = check_resource_type(data.resource_type.as_str()) {
        return Err(e);
    }
    Ok(())
}

/// Validate a resource patch: each supplied field as in
/// [`validate_resource_data`], and a non-negative hourly rate.
pub fn validate_update_resource_data(data: &UpdateResource) -> (r: Result<(), String>)
    ensures
        r is Ok <==> update_resource_ok(*data),
{
    match &data.name {
        Some(name) => {
            if let Err(e) = check_resource_name(name.as_str()) {
                return Err(e);
            }
        },
        None => {},
    }
    match &data.resource_type {
        Some(t) => {
            if let Err(e) = check_resource_type(t.as_str()) {
                return Err(e);
            }
        },
        None => {},
    }
    match &data.rate_per_hour {
        Some(rate) => {
            if *rate < 0 {
                return Err(String::from_str("Rate per hour cannot be negative"));
            }
        },
        None => {},
    }
    Ok(())
}

} // verus!
