//! Common field validators: length, presence, sign and enumeration checks,
//! each reporting a bilingual [`ValidationError`] under its field name.

use vstd::prelude::*;
use vstd::string::StringExecFns;

use crate::error::{AppError, ErrorKind, ValidationError};
use crate::text::{trim_of, all_space, chars_vec, trim_chars, u64_to_string, string_from_chars};

verus! {

/// Validate a string's trimmed length against inclusive bounds.
pub fn validate_string_length(value: &str, field: &str, min: usize, max: usize) -> (r: Result<
    (),
    AppError,
>)
    ensures
        r is Ok <==> min <= trim_of(value@).len() <= max,
        r matches Err(e) ==> e.kind() == ErrorKind::Validation,
{
    let v = chars_vec(value);
    let tv = trim_chars(&v);
    if tv.len() < min {
        let n = u64_to_string(min as u64);
        let mut msg = String::from_str(field);
        msg.append(" must be at least ");
        msg.append(n.as_str());
        msg.append(" characters");
        let mut msg_ar = String::from_str(field);
        msg_ar.append(" يجب أن يكون ");
        msg_ar.append(n.as_str());
        msg_ar.append(" أحرف على الأقل");
        return Err(
            AppError::Validation(
                ValidationError {
                    field: String::from_str(field),
                    message: msg,
                    message_ar: msg_ar,
                },
            ),
        );
    }
    if tv.len() > max {
        let n = u64_to_string(max as u64);
        let mut msg = String::from_str(field);
        msg.append(" is too long (max ");
        msg.append(n.as_str());
        msg.append(" characters)");
        let mut msg_ar = String::from_str(field);
        msg_ar.append(" طويل جداً (الحد الأقصى ");
        msg_ar.append(n.as_str());
        msg_ar.append(" حرف)");
        return Err(
            AppError::Validation(
                ValidationError {
                    field: String::from_str(field),
                    message: msg,
                    message_ar: msg_ar,
                },
            ),
        );
    }
    Ok(())
}

/// Validate that a string holds something besides whitespace.
pub fn validate_required(value: &str, field: &str) -> (r: Result<(), AppError>)
    ensures
        r is Ok <==> !all_space(value@),
        r matches Err(e) ==> e.kind() == ErrorKind::Validation,
{
    let v = chars_vec(value);
    let tv = trim_chars(&v);
    proof {
        crate::text::lemma_trim_empty_iff_all_space(v@);
    }
    if tv.len() == 0 {
        let mut msg = String::from_str(field);
        msg.append(" is required");
        let mut msg_ar = String::from_str(field);
        msg_ar.append(" مطلوب");
        return Err(
            AppError::Validation(
                ValidationError {
                    field: String::from_str(field),
                    message: msg,
                    message_ar: msg_ar,
                },
            ),
        );
    }
    Ok(())
}

/// Validate that a number is strictly positive.
pub fn validate_positive(value: i64, field: &str) -> (r: Result<(), AppError>)
    ensures
        r is Ok <==> value > 0,
        r matches Err(e) ==> e.kind() == ErrorKind::Validation,
{
    if value <= 0 {
        let mut msg = String::from_str(field);
        msg.append(" must be positive");
        let mut msg_ar = String::from_str(field);
        msg_ar.append(" يجب أن يكون موجباً");
        return Err(
            AppError::Validation(
                ValidationError {
                    field: String::from_str(field),
                    message: msg,
                    message_ar: msg_ar,
                },
            ),
        );
    }
    Ok(())
}

/// Validate that a number is not negative.
pub fn validate_non_negative(value: i64, field: &str) -> (r: Result<(), AppError>)
    ensures
        r is Ok <==> value >= 0,
        r matches Err(e) ==> e.kind() == ErrorKind::Validation,
{
    if value < 0 {
        let mut msg = String::from_str(field);
        msg.append(" cannot be negative");
        let mut msg_ar = String::from_str(field);
        msg_ar.append(" لا يمكن أن يكون سالباً");
        return Err(
            AppError::Validation(
                ValidationError {
                    field: String::from_str(field),
                    message: msg,
                    message_ar: msg_ar,
                },
            ),
        );
    }
    Ok(())
}

/// What `uuid::Uuid::parse_str` accepts: a fixed function of the characters
/// alone.
pub uninterp spec fn uuid_accepts(s: Seq<char>) -> bool;

/// Relies on `uuid::Uuid::parse_str`: whether the value parses as a UUID,
/// depending on its characters alone.
#[verifier::external_body]
fn uuid_parse_ok(value: &str) -> (r: bool)
    ensures
        r == uuid_accepts(value@),
{
    uuid::Uuid::parse_str(value).is_ok()
}

/// Validate that a value parses as a UUID.
pub fn validate_uuid(value: &str, field: &str) -> (r: Result<(), AppError>)
    ensures
        r is Ok <==> uuid_accepts(value@),
        r matches Err(e) ==> e.kind() == ErrorKind::Validation,
{
    if !uuid_parse_ok(value) {
        let mut msg = String::from_str("Invalid ");
        msg.append(field);
        msg.append(" format");
        let mut msg_ar = String::from_str("صيغة ");
        msg_ar.append(field);
        msg_ar.append(" غير صالحة");
        return Err(
            AppError::Validation(
                ValidationError {
                    field: String::from_str(field),
                    message: msg,
                    message_ar: msg_ar,
                },
            ),
        );
    }
    Ok(())
}

/// Validate that a value is one of the permitted words.
pub fn validate_enum(value: &str, field: &str, valid_values: &Vec<&str>) -> (r: Result<
    (),
    AppError,
>)
    ensures
        r is Ok <==> exists|i: int|
            0 <= i < valid_values@.len() && (#[trigger] valid_values@[i])@ == value@,
        r matches Err(e) ==> e.kind() == ErrorKind::Validation,
{
    let mut i: usize = 0;
    while i < valid_values.len()
        invariant
            i <= valid_values@.len(),
            forall|j: int| 0 <= j < i ==> (#[trigger] valid_values@[j])@ != value@,
        decreases valid_values.len() - i,
    {
        if crate::text::str_eq(valid_values[i], value) {
            return Ok(());
        }
        i = i + 1;
    }
    let mut msg = String::from_str(field);
    msg.append(" must be one of: ");
    let mut msg_ar = String::from_str(field);
    msg_ar.append(" يجب أن يكون أحد: ");
    let mut j: usize = 0;
    while j < valid_values.len()
        decreases valid_values.len() - j,
    {
        if j > 0 {
            msg.append(", ");
            msg_ar.append(", ");
        }
        msg.append(valid_values[j]);
        msg_ar.append(valid_values[j]);
        j = j + 1;
    }
    Err(
        AppError::Validation(
            ValidationError { field: String::from_str(field), message: msg, message_ar: msg_ar },
        ),
    )
}

} // verus!
