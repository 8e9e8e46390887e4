//! Egyptian phone number validation.
//!
//! Egyptian mobile numbers: an optional `+20` country code or a leading `0`,
//! a carrier prefix `10` (Vodafone), `11` (Etisalat), `12` (Orange) or `15`
//! (WE), then eight digits. Landlines: the same optional prefixes, an area
//! digit `2`–`9`, then eight or nine digits. Numbers are normalized by
//! dropping whitespace, dashes and parentheses, and reported in `+20` form.

use vstd::prelude::*;
use vstd::string::StringExecFns;

use crate::text::{
    is_space, is_digit, space_char, digit_char, chars_vec, string_from_chars, all_space as blank,
};

verus! {

/// Characters that normalization keeps.
pub open spec fn keep_phone(c: char) -> bool {
    !is_space(c) && c != '-' && c != '(' && c != ')'
}

/// The normalized form: whitespace, dashes and parentheses removed.
pub open spec fn phone_norm(s: Seq<char>) -> Seq<char>
    decreases s.len(),
{
    if s.len() == 0 {
        s
    } else {
        phone_norm(s.drop_last()) + (if keep_phone(s.last()) {
            seq![s.last()]
        } else {
            Seq::<char>::empty()
        })
    }
}

/// Whether the sequence starts with the `+20` country code.
pub open spec fn starts_plus20(t: Seq<char>) -> bool {
    t.len() >= 3 && t[0] == '+' && t[1] == '2' && t[2] == '0'
}

/// The bare mobile form: `1`, a carrier digit `0`, `1`, `2` or `5`, then
/// eight digits.
pub open spec fn mobile_core(t: Seq<char>) -> bool {
    &&& t.len() == 10
    &&& t[0] == '1'
    &&& (t[1] == '0' || t[1] == '1' || t[1] == '2' || t[1] == '5')
    &&& forall|i: int| 2 <= i < 10 ==> is_digit(#[trigger] t[i])
}

/// A normalized mobile number: the bare form with an optional `0` or `+20`.
pub open spec fn mobile_matches(t: Seq<char>) -> bool {
    ||| mobile_core(t)
    ||| (t.len() >= 1 && t[0] == '0' && mobile_core(t.skip(1)))
    ||| (starts_plus20(t) && mobile_core(t.skip(3)))
}

/// The bare landline form: an area digit `2`–`9`, then eight or nine digits.
pub open spec fn landline_core(t: Seq<char>) -> bool {
    &&& (t.len() == 9 || t.len() == 10)
    &&& ('2' <= t[0] && t[0] <= '9')
    &&& forall|i: int| 1 <= i < t.len() ==> is_digit(#[trigger] t[i])
}

/// A normalized landline number: the bare form with an optional `0` or `+20`.
pub open spec fn landline_matches(t: Seq<char>) -> bool {
    ||| landline_core(t)
    ||| (t.len() >= 1 && t[0] == '0' && landline_core(t.skip(1)))
    ||| (starts_plus20(t) && landline_core(t.skip(3)))
}

/// The `+20` form of a normalized number: a leading `0` is replaced by
/// `+20`; a number with neither prefix gains `+20`.
pub open spec fn intl_of(t: Seq<char>) -> Seq<char> {
    if t.len() >= 1 && t[0] == '0' {
        seq!['+', '2', '0'] + t.skip(1)
    } else if !starts_plus20(t) {
        seq!['+', '2', '0'] + t
    } else {
        t
    }
}

/// The carrier digit of a normalized number: the digit after the mobile `1`,
/// read past whichever prefix is present.
pub open spec fn carrier_digit_of(t: Seq<char>) -> Option<char> {
    if starts_plus20(t) {
        if t.len() > 4 {
            Some(t[4])
        } else {
            None
        }
    } else if t.len() >= 1 && t[0] == '0' {
        if t.len() > 2 {
            Some(t[2])
        } else {
            None
        }
    } else {
        if t.len() > 1 {
            Some(t[1])
        } else {
            None
        }
    }
}

/// The carrier name for a normalized number, when its carrier digit names
/// one.
pub open spec fn carrier_of(t: Seq<char>) -> Option<Seq<char>> {
    match carrier_digit_of(t) {
        Some(d) => {
            if d == '0' {
                Some("Vodafone"@)
            } else if d == '1' {
                Some("Etisalat"@)
            } else if d == '2' {
                Some("Orange"@)
            } else if d == '5' {
                Some("WE"@)
            } else {
                None
            }
        },
        None => None,
    }
}

/// Phone type.
#[derive(Debug, Clone, PartialEq, Eq, Structural)]
pub enum PhoneType {
    Mobile,
    Landline,
}

/// Phone validation result.
#[derive(Debug, Clone)]
pub struct PhoneValidationResult {
    pub is_valid: bool,
    pub normalized: Option<String>,
    pub carrier: Option<String>,
    pub phone_type: Option<PhoneType>,
    pub error: Option<String>,
    pub error_ar: Option<String>,
}

fn blank_chars(v: &Vec<char>) -> (r: bool)
    ensures
        r == blank(v@),
{
    let mut i: usize = 0;
    while i < v.len()
        invariant
            i <= v.len(),
            forall|j: int| 0 <= j < i ==> is_space(#[trigger] v@[j]),
        decreases v.len() - i,
    {
        if !space_char(v[i]) {
            return false;
        }
        i = i + 1;
    }
    true
}

fn norm_chars(v: &Vec<char>) -> (r: Vec<char>)
    ensures
        r@ == phone_norm(v@),
{
    let mut r: Vec<char> = Vec::new();
    let mut i: usize = 0;
    while i < v.len()
        invariant
            i <= v.len(),
            r@ =~= phone_norm(v@.take(i as int)),
        decreases v.len() - i,
    {
        let c = v[i];
        proof {
            assert(v@.take(i as int + 1).drop_last() =~= v@.take(i as int));
            assert(v@.take(i as int + 1).last() == c);
        }
        if !space_char(c) && c != '-' && c != '(' && c != ')' {
            r.push(c);
        }
        i = i + 1;
    }
    proof {
        assert(v@.take(v@.len() as int) =~= v@);
    }
    r
}

fn mobile_core_check(v: &Vec<char>, from: usize) -> (r: bool)
    requires
        from <= v@.len(),
    ensures
        r == mobile_core(v@.skip(from as int)),
{
    let ghost t = v@.skip(from as int);
    if v.len() - from != 10 {
        return false;
    }
    if v[from] != '1' {
        proof {
            assert(t[0] == v@[from as int]);
        }
        return false;
    }
    let c1 = v[from + 1];
    if !(c1 == '0' || c1 == '1' || c1 == '2' || c1 == '5') {
        proof {
            assert(t[1] == v@[from as int + 1]);
        }
        return false;
    }
    let mut i: usize = 2;
    while i < 10
        invariant
            2 <= i <= 10,
            from + 10 == v@.len(),
            from + 10 <= usize::MAX,
            t == v@.skip(from as int),
            forall|j: int| 2 <= j < i ==> is_digit(#[trigger] t[j]),
        decreases 10 - i,
    {
        proof {
            assert(t[i as int] == v@[from as int + i as int]);
        }
        if !digit_char(v[from + i]) {
            return false;
        }
        i = i + 1;
    }
    proof {
        assert(t[0] == v@[from as int]);
        assert(t[1] == v@[from as int + 1]);
    }
    true
}

fn landline_core_check(v: &Vec<char>, from: usize) -> (r: bool)
    requires
        from <= v@.len(),
    ensures
        r == landline_core(v@.skip(from as int)),
{
    let ghost t = v@.skip(from as int);
    let n = v.len() - from;
    if n != 9 && n != 10 {
        return false;
    }
    let c0 = v[from];
    if !('2' <= c0 && c0 <= '9') {
        proof {
            assert(t[0] == v@[from as int]);
        }
        return false;
    }
    let mut i: usize = 1;
    while i < n
        invariant
            1 <= i <= n,
            from + n == v@.len(),
            from + n <= usize::MAX,
            t == v@.skip(from as int),
            n == t.len(),
            forall|j: int| 1 <= j < i ==> is_digit(#[trigger] t[j]),
        decreases n - i,
    {
        proof {
            assert(t[i as int] == v@[from as int + i as int]);
        }
        if !digit_char(v[from + i]) {
            return false;
        }
        i = i + 1;
    }
    proof {
        assert(t[0] == v@[from as int]);
    }
    true
}

fn has_plus20(v: &Vec<char>) -> (r: bool)
    ensures
        r == starts_plus20(v@),
{
    v.len() >= 3 && v[0] == '+' && v[1] == '2' && v[2] == '0'
}

fn mobile_check(v: &Vec<char>) -> (r: bool)
    ensures
        r == mobile_matches(v@),
{
    if mobile_core_check(v, 0) {
        proof {
            assert(v@.skip(0) =~= v@);
        }
        return true;
    }
    proof {
        assert(v@.skip(0) =~= v@);
    }
    if v.len() >= 1 && v[0] == '0' && mobile_core_check(v, 1) {
        return true;
    }
    if has_plus20(v) && mobile_core_check(v, 3) {
        return true;
    }
    false
}

fn landline_check(v: &Vec<char>) -> (r: bool)
    ensures
        r == landline_matches(v@),
{
    if landline_core_check(v, 0) {
        proof {
            assert(v@.skip(0) =~= v@);
        }
        return true;
    }
    proof {
        assert(v@.skip(0) =~= v@);
    }
    if v.len() >= 1 && v[0] == '0' && landline_core_check(v, 1) {
        return true;
    }
    if has_plus20(v) && landline_core_check(v, 3) {
        return true;
    }
    false
}

fn intl_chars(v: &Vec<char>) -> (r: Vec<char>)
    ensures
        r@ == intl_of(v@),
{
    let mut r: Vec<char> = Vec::new();
    let from: usize;
    if v.len() >= 1 && v[0] == '0' {
        r.push('+');
        r.push('2');
        r.push('0');
        from = 1;
    } else if !has_plus20(v) {
        r.push('+');
        r.push('2');
        r.push('0');
        from = 0;
    } else {
        from = 0;
    }
    let ghost pre = r@;
    let mut i: usize = from;
    while i < v.len()
        invariant
            from <= i <= v.len(),
            r@ =~= pre + v@.skip(from as int).take(i as int - from as int),
        decreases v.len() - i,
    {
        r.push(v[i]);
        proof {
            assert(v@.skip(from as int)[i as int - from as int] == v@[i as int]);
            assert(v@.skip(from as int).take(i as int + 1 - from as int) =~= v@.skip(
                from as int,
            ).take(i as int - from as int).push(v@[i as int]));
        }
        i = i + 1;
    }
    proof {
        assert(v@.skip(from as int).take(v@.len() as int - from as int) =~= v@.skip(from as int));
        if v@.len() >= 1 && v@[0] == '0' {
            assert(r@ =~= intl_of(v@));
        } else if !starts_plus20(v@) {
            assert(v@.skip(0) =~= v@);
            assert(r@ =~= intl_of(v@));
        } else {
            assert(v@.skip(0) =~= v@);
            assert(r@ =~= intl_of(v@));
        }
    }
    r
}

fn carrier_from(v: &Vec<char>) -> (r: Option<String>)
    ensures
        r is Some <==> carrier_of(v@) is Some,
        r matches Some(s) ==> Some(s@) == carrier_of(v@),
{
    let d: Option<char> = if has_plus20(v) {
        if v.len() > 4 {
            Some(v[4])
        } else {
            None
        }
    } else if v.len() >= 1 && v[0] == '0' {
        if v.len() > 2 {
            Some(v[2])
        } else {
            None
        }
    } else {
        if v.len() > 1 {
            Some(v[1])
        } else {
            None
        }
    };
    match d {
        Some(c) => {
            if c == '0' {
                Some(String::from_str("Vodafone"))
            } else if c == '1' {
                Some(String::from_str("Etisalat"))
            } else if c == '2' {
                Some(String::from_str("Orange"))
            } else if c == '5' {
                Some(String::from_str("WE"))
            } else {
                None
            }
        },
        None => None,
    }
}

/// Get the carrier name from a phone's prefix, after normalization.
pub fn get_carrier(phone: &str) -> (r: Option<String>)
    ensures
        r is Some <==> carrier_of(phone_norm(phone@)) is Some,
        r matches Some(s) ==> Some(s@) == carrier_of(phone_norm(phone@)),
{
    let v = chars_vec(phone);
    let nv = norm_chars(&v);
    carrier_from(&nv)
}

/// Normalize a phone number by removing whitespace, dashes and parentheses.
pub fn normalize_phone(phone: &str) -> (r: String)
    ensures
        r@ == phone_norm(phone@),
{
    let v = chars_vec(phone);
    let nv = norm_chars(&v);
    string_from_chars(&nv)
}

/// Validate an Egyptian phone number: blank input is rejected as required;
/// a normalized mobile or landline match is reported in `+20` form with its
/// type, and the carrier for mobiles; anything else is invalid.
pub fn validate_egyptian_phone(phone: &str) -> (r: PhoneValidationResult)
    ensures
        r.is_valid == (!blank(phone@) && (mobile_matches(phone_norm(phone@)) || landline_matches(
            phone_norm(phone@),
        ))),
        blank(phone@) ==> r.normalized is None && r.carrier is None && r.phone_type is None
            && r.error is Some,
        (!blank(phone@) && mobile_matches(phone_norm(phone@))) ==> {
            &&& r.normalized matches Some(s) && s@ == intl_of(phone_norm(phone@))
            &&& r.phone_type == Some(PhoneType::Mobile)
            &&& (r.carrier is Some <==> carrier_of(phone_norm(phone@)) is Some)
            &&& (r.carrier matches Some(c) ==> Some(c@) == carrier_of(phone_norm(phone@)))
            &&& r.error is None
        },
        (!blank(phone@) && !mobile_matches(phone_norm(phone@)) && landline_matches(
            phone_norm(phone@),
        )) ==> {
            &&& r.normalized matches Some(s) && s@ == intl_of(phone_norm(phone@))
            &&& r.phone_type == Some(PhoneType::Landline)
            &&& r.carrier is None
            &&& r.error is None
        },
        (!blank(phone@) && !mobile_matches(phone_norm(phone@)) && !landline_matches(
            phone_norm(phone@),
        )) ==> r.normalized is None && r.carrier is None && r.phone_type is None && r.error
            is Some,
{
    let v = chars_vec(phone);
    if blank_chars(&v) {
        return PhoneValidationResult {
            is_valid: false,
            normalized: None,
            carrier: None,
            phone_type: None,
            error: Some(String::from_str("Phone number is required")),
            error_ar: Some(String::from_str("رقم الهاتف مطلوب")),
        };
    }
    let nv = norm_chars(&v);
    if mobile_check(&nv) {
        let full = intl_chars(&nv);
        return PhoneValidationResult {
            is_valid: true,
            normalized: Some(string_from_chars(&full)),
            carrier: carrier_from(&nv),
            phone_type: Some(PhoneType::Mobile),
            error: None,
            error_ar: None,
        };
    }
    if landline_check(&nv) {
        let full = intl_chars(&nv);
        return PhoneValidationResult {
            is_valid: true,
            normalized: Some(string_from_chars(&full)),
            carrier: None,
            phone_type: Some(PhoneType::Landline),
            error: None,
            error_ar: None,
        };
    }
    PhoneValidationResult {
        is_valid: false,
        normalized: None,
        carrier: None,
        phone_type: None,
        error: Some(
            String::from_str("Invalid Egyptian phone number. Must start with 010, 011, 012, or 015"),
        ),
        error_ar: Some(
            String::from_str("رقم هاتف مصري غير صالح. يجب أن يبدأ بـ 010 أو 011 أو 012 أو 015"),
        ),
    }
}

/// Check whether a phone is a valid Egyptian number.
pub fn is_valid_egyptian_phone(phone: &str) -> (r: bool)
    ensures
        r == (!blank(phone@) && (mobile_matches(phone_norm(phone@)) || landline_matches(
            phone_norm(phone@),
        ))),
{
    validate_egyptian_phone(phone).is_valid
}

} // verus!
