//! Customer input records and their validation.

use vstd::prelude::*;
use vstd::string::StringExecFns;

use crate::text::{is_digit, trim_of, chars_vec, trim_chars, digit_char, str_eq};

verus! {

/// A new customer, as the caller supplies it.
pub struct CreateCustomer {
    pub name: String,
    pub phone: String,
    pub email: Option<String>,
    pub customer_type: String,
    pub notes: Option<String>,
}

/// A customer patch: each field optional, absent fields untouched.
pub struct UpdateCustomer {
    pub name: Option<String>,
    pub phone: Option<String>,
    pub email: Option<String>,
    pub customer_type: Option<String>,
    pub notes: Option<String>,
}

/// A trimmed name of 2 to 100 characters.
pub open spec fn name_ok(s: Seq<char>) -> bool {
    2 <= trim_of(s).len() <= 100
}

/// Digits, `+`, `-` and spaces only.
pub open spec fn phone_chars_ok(t: Seq<char>) -> bool {
    forall|i: int|
        0 <= i < t.len() ==> (is_digit(#[trigger] t[i]) || t[i] == '+' || t[i] == '-' || t[i]
            == ' ')
}

/// A trimmed phone of 10 to 20 permitted characters.
pub open spec fn phone_field_ok(s: Seq<char>) -> bool {
    &&& 10 <= trim_of(s).len() <= 20
    &&& phone_chars_ok(trim_of(s))
}

/// An optional email: empty, or holding an `@`.
pub open spec fn email_field_ok(s: Seq<char>) -> bool {
    trim_of(s).len() == 0 || exists|i: int| 0 <= i < trim_of(s).len() && #[trigger] trim_of(s)[i]
        == '@'
}

pub open spec fn customer_type_ok(s: Seq<char>) -> bool {
    s == "visitor"@ || s == "member"@
}

/// Notes of at most 1000 characters.
pub open spec fn notes_ok(s: Seq<char>) -> bool {
    s.len() <= 1000
}

/// Every field of a new customer acceptable.
pub open spec fn create_customer_ok(d: CreateCustomer) -> bool {
    &&& name_ok(d.name@)
    &&& phone_field_ok(d.phone@)
    &&& match d.email {
        Some(e) => email_field_ok(e@),
        None => true,
    }
    &&& customer_type_ok(d.customer_type@)
    &&& match d.notes {
        Some(n) => notes_ok(n@),
        None => true,
    }
}

/// Every supplied field of a customer patch acceptable.
pub open spec fn update_customer_ok(d: UpdateCustomer) -> bool {
    &&& match d.name {
        Some(n) => name_ok(n@),
        None => true,
    }
    &&& match d.phone {
        Some(p) => phone_field_ok(p@),
        None => true,
    }
    &&& match d.email {
        Some(e) => email_field_ok(e@),
        None => true,
    }
    &&& match d.customer_type {
        Some(t) => customer_type_ok(t@),
        None => true,
    }
    &&& match d.notes {
        Some(n) => notes_ok(n@),
        None => true,
    }
}

fn check_name(name: &str) -> (r: Result<(), String>)
    ensures
        r is Ok <==> name_ok(name@),
{
    let tv = trim_chars(&chars_vec(name));
    if tv.len() < 2 {
        return Err(String::from_str("Name must be at least 2 characters"));
    }
    if tv.len() > 100 {
        return Err(String::from_str("Name is too long (max 100 characters)"));
    }
    Ok(())
}

fn check_phone(phone: &str) -> (r: Result<(), String>)
    ensures
        r is Ok <==> phone_field_ok(phone@),
{
    let tv = trim_chars(&chars_vec(phone));
    if tv.len() < 10 {
        return Err(String::from_str("Phone must be at least 10 digits"));
    }
    if tv.len() > 20 {
        return Err(String::from_str("Phone is too long (max 20 characters)"));
    }
    let mut i: usize = 0;
    while i < tv.len()
        invariant
            i <= tv@.len(),
            tv@ == trim_of(phone@),
            forall|j: int|
                0 <= j < i ==> (is_digit(#[trigger] tv@[j]) || tv@[j] == '+' || tv@[j] == '-'
                    || tv@[j] == ' '),
        decreases tv@.len() - i,
    {
        let c = tv[i];
        if !(digit_char(c) || c == '+' || c == '-' || c == ' ') {
            return Err(String::from_str("Phone contains invalid characters"));
        }
        i = i + 1;
    }
    Ok(())
}

fn check_email(email: &str) -> (r: Result<(), String>)
    ensures
        r is Ok <==> email_field_ok(email@),
{
    let tv = trim_chars(&chars_vec(email));
    if tv.len() == 0 {
        return Ok(());
    }
    let mut i: usize = 0;
    while i < tv.len()
        invariant
            i <= tv@.len(),
            tv@ == trim_of(email@),
            forall|j: int| 0 <= j < i ==> #[trigger] tv@[j] != '@',
        decreases tv@.len() - i,
    {
        if tv[i] == '@' {
            return Ok(());
        }
        i = i + 1;
    }
    Err(String::from_str("Invalid email format"))
}

fn check_type(t: &str) -> (r: Result<(), String>)
    ensures
        r is Ok <==> customer_type_ok(t@),
{
    if str_eq(t, "visitor") || str_eq(t, "member") {
        Ok(())
    } else {
        Err(String::from_str("Customer type must be 'visitor' or 'member'"))
    }
}

fn check_notes(n: &str) -> (r: Result<(), String>)
    ensures
        r is Ok <==> notes_ok(n@),
{
    let v = chars_vec(n);
    if v.len() > 1000 {
        return Err(String::from_str("Notes are too long (max 1000 characters)"));
    }
    Ok(())
}

/// The human-readable customer id for a sequence number: a `C` followed by
/// the number, zero-padded to at least four digits.
pub open spec fn human_id_of(n: int) -> Seq<char> {
    seq!['C'] + crate::text::zero_pad4(crate::text::dec_of(n))
}

/// The sequence number the next customer gets, read off the latest
/// human-readable id: its digits after the first character plus one, or one
/// when there is no latest id or its digits do not parse.
pub open spec fn next_human_num(last: Option<Seq<char>>) -> int {
    match last {
        Some(s) => {
            let t = s.skip(1);
            if s.len() >= 1 && crate::text::is_digits(t) && crate::text::dec_val(t) <= u32::MAX {
                crate::text::dec_val(t) + 1
            } else {
                1
            }
        },
        None => 1,
    }
}

/// The next human-readable customer id after the latest one, `C0001` when
/// there is none or it does not parse.
pub fn get_next_human_id(last: Option<&str>) -> (r: String)
    ensures
        r@ == human_id_of(
            next_human_num(
                match last {
                    Some(s) => Some(s@),
                    None => None,
                },
            ),
        ),
{
    let num: u64 = match last {
        Some(s) => {
            let v = chars_vec(s);
            if v.len() == 0 {
                1
            } else {
                match crate::text::parse_u32_digits(&v, 1) {
                    Some(n) => n as u64 + 1,
                    None => 1,
                }
            }
        },
        None => 1,
    };
    let digits = crate::text::u64_to_padded4_string(num);
    let mut out = String::from_str("C");
    out.append(digits.as_str());
    proof {
        reveal_strlit("C");
        assert("C"@ =~= seq!['C']);
        assert(out@ =~= seq!['C'] + crate::text::zero_pad4(crate::text::dec_of(num as int)));
    }
    out
}

/// Validate a new customer record: name length, phone shape, optional email
/// shape, customer type, and note length.
pub fn validate_customer_data(data: &CreateCustomer) -> (r: Result<(), String>)
    ensures
        r is Ok <==> create_customer_ok(*data),
{
    if let Err(e) = check_name(data.name.as_str()) {
        return Err(e);
    }
    if let Err(e) = check_phone(data.phone.as_str()) {
        return Err(e);
    }
    match &data.email {
        Some(email) => {
            if let Err(e) = check_email(email.as_str()) {
                return Err(e);
            }
        },
        None => {},
    }
    if let Err(e) = check_type(data.customer_type.as_str()) {
        return Err(e);
    }
    match &data.notes {
        Some(notes) => {
            if let Err(e) = check_notes(notes.as_str()) {
                return Err(e);
            }
        },
        None => {},
    }
    Ok(())
}

/// Validate a customer patch: each supplied field as in
/// [`validate_customer_data`].
pub fn validate_update_customer_data(data: &UpdateCustomer) -> (r: Result<(), String>)
    ensures
        r is Ok <==> update_customer_ok(*data),
{
    match &data.name {
        Some(name) => {
            if let Err(e) = check_name(name.as_str()) {
                return Err(e);
            }
        },
        None => {},
    }
    match &data.phone {
        Some(phone) => {
            if let Err(e) = check_phone(phone.as_str()) {
                return Err(e);
            }
        },
        None => {},
    }
    match &data.email {
        Some(email) => {
            if let Err(e) = check_email(email.as_str()) {
                return Err(e);
            }
        },
        None => {},
    }
    match &data.customer_type {
        Some(t) => {
            if let Err(e) = check_type(t.as_str()) {
                return Err(e);
            }
        },
        None => {},
    }
    match &data.notes {
        Some(notes) => {
            if let Err(e) = check_notes(notes.as_str()) {
                return Err(e);
            }
        },
        None => {},
    }
    Ok(())
}

} // verus!
