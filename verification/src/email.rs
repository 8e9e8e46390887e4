//! Email validation.
//!
//! An address is normalized by trimming surrounding whitespace and ASCII
//! lower-casing, then held to a conservative shape: one local part of
//! permitted characters, an `@`, and dot-separated domain labels of at most
//! 63 characters that start and end alphanumeric. A blank address is valid —
//! the field is optional — and a handful of disposable-mail domains are
//! flagged.

use vstd::prelude::*;
use vstd::string::StringExecFns;

use crate::text::{
    is_alnum, alnum_char, lower_of, trim_of, all_space as blank, chars_vec, trim_chars,
    lower_chars, string_from_chars, str_eq, lemma_trim_empty_iff_all_space,
};

verus! {

/// Characters permitted in the local part.
pub open spec fn is_local_char(c: char) -> bool {
    is_alnum(c) || c == '.' || c == '!' || c == '#' || c == '$' || c == '%' || c == '&' || c == '\''
        || c == '*' || c == '+' || c == '/' || c == '=' || c == '?' || c == '^' || c == '_' || c
        == '`' || c == '{' || c == '|' || c == '}' || c == '~' || c == '-'
}

fn local_char(c: char) -> (r: bool)
    ensures
        r == is_local_char(c),
{
    alnum_char(c) || c == '.' || c == '!' || c == '#' || c == '$' || c == '%' || c == '&' || c
        == '\'' || c == '*' || c == '+' || c == '/' || c == '=' || c == '?' || c == '^' || c == '_'
        || c == '`' || c == '{' || c == '|' || c == '}' || c == '~' || c == '-'
}

/// A non-empty run of local-part characters.
pub open spec fn is_local(t: Seq<char>) -> bool {
    t.len() >= 1 && forall|i: int| 0 <= i < t.len() ==> is_local_char(#[trigger] t[i])
}

/// A domain: dot-separated labels, each 1 to 63 characters, alphanumeric at
/// both ends with alphanumerics and hyphens between.
pub open spec fn is_domain(t: Seq<char>) -> bool
    decreases t.len(),
{
    if t.len() == 0 {
        false
    } else if !is_alnum(t[0]) {
        false
    } else {
        domain_tail(t.drop_first(), 1, true)
    }
}

/// The state of a domain scan: within a label of `label_len` characters so
/// far, whose last character is alphanumeric iff `prev_alnum`.
pub open spec fn domain_tail(t: Seq<char>, label_len: int, prev_alnum: bool) -> bool
    decreases t.len(),
{
    if t.len() == 0 {
        label_len <= 63 && prev_alnum
    } else if t[0] == '.' {
        prev_alnum && label_len <= 63 && is_domain(t.drop_first())
    } else if is_alnum(t[0]) {
        domain_tail(t.drop_first(), label_len + 1, true)
    } else if t[0] == '-' {
        domain_tail(t.drop_first(), label_len + 1, false)
    } else {
        false
    }
}

/// A split of `s` into a local part and a domain at position `p`.
pub open spec fn email_split_at(s: Seq<char>, p: int) -> bool {
    &&& 0 <= p < s.len()
    &&& s[p] == '@'
    &&& is_local(s.take(p))
    &&& is_domain(s.skip(p + 1))
}

/// The email shape: a local part, `@`, a domain.
pub open spec fn email_matches(s: Seq<char>) -> bool {
    exists|p: int| #[trigger] email_split_at(s, p)
}

/// No character of a domain is an `@`.
pub proof fn lemma_domain_no_at(t: Seq<char>)
    requires
        is_domain(t),
    ensures
        forall|i: int| 0 <= i < t.len() ==> #[trigger] t[i] != '@',
    decreases t.len(),
{
    lemma_domain_tail_no_at(t.drop_first(), 1, true);
    assert forall|i: int| 0 <= i < t.len() implies #[trigger] t[i] != '@' by {
        if i > 0 {
            assert(t.drop_first()[i - 1] != '@');
        }
    }
}

pub proof fn lemma_domain_tail_no_at(t: Seq<char>, label_len: int, prev_alnum: bool)
    requires
        domain_tail(t, label_len, prev_alnum),
    ensures
        forall|i: int| 0 <= i < t.len() ==> #[trigger] t[i] != '@',
    decreases t.len(),
{
    if t.len() > 0 {
        if t[0] == '.' {
            lemma_domain_no_at(t.drop_first());
        } else if is_alnum(t[0]) {
            lemma_domain_tail_no_at(t.drop_first(), label_len + 1, true);
        } else {
            lemma_domain_tail_no_at(t.drop_first(), label_len + 1, false);
        }
        assert forall|i: int| 0 <= i < t.len() implies #[trigger] t[i] != '@' by {
            if i > 0 {
                assert(t.drop_first()[i - 1] != '@');
            }
        }
    }
}

/// A position holding the only `@` of the sequence.
pub open spec fn at_unique(s: Seq<char>, p: int) -> bool {
    &&& 0 <= p < s.len()
    &&& s[p] == '@'
    &&& forall|j: int| 0 <= j < s.len() && j != p ==> s[j] != '@'
}

/// Whether the sequence holds exactly one `@`.
pub open spec fn one_at(s: Seq<char>) -> bool {
    exists|p: int| #[trigger] at_unique(s, p)
}

/// The domain part of an address: what follows the `@` when there is exactly
/// one, lower-cased.
pub open spec fn domain_of(s: Seq<char>) -> Option<Seq<char>> {
    if one_at(s) {
        Some(lower_of(s.skip((choose|p: int| #[trigger] at_unique(s, p)) + 1)))
    } else {
        None
    }
}

/// Two adjacent dots somewhere in the sequence.
pub open spec fn consec_dots(s: Seq<char>) -> bool {
    exists|i: int| 0 <= i < s.len() - 1 && #[trigger] s[i] == '.' && s[i + 1] == '.'
}

pub open spec fn has_dot(s: Seq<char>) -> bool {
    exists|i: int| 0 <= i < s.len() && #[trigger] s[i] == '.'
}

/// The index of the last dot, or -1.
pub open spec fn last_dot(s: Seq<char>) -> int
    decreases s.len(),
{
    if s.len() == 0 {
        -1
    } else if s.last() == '.' {
        s.len() - 1
    } else {
        last_dot(s.drop_last())
    }
}

/// The characterization of [`last_dot`]: the greatest dot position, or -1
/// when no dot exists.
pub proof fn lemma_last_dot(s: Seq<char>)
    ensures
        has_dot(s) ==> {
            &&& 0 <= last_dot(s) < s.len()
            &&& s[last_dot(s)] == '.'
            &&& forall|j: int| last_dot(s) < j < s.len() ==> s[j] != '.'
        },
        !has_dot(s) ==> last_dot(s) == -1,
    decreases s.len(),
{
    if s.len() > 0 {
        lemma_last_dot(s.drop_last());
        if s.last() == '.' {
            assert(has_dot(s)) by {
                assert(s[s.len() - 1] == '.');
            }
        } else {
            if has_dot(s) {
                let i = choose|i: int| 0 <= i < s.len() && #[trigger] s[i] == '.';
                assert(i < s.len() - 1);
                assert(s.drop_last()[i] == '.');
                assert(has_dot(s.drop_last()));
                assert forall|j: int| last_dot(s) < j < s.len() implies s[j] != '.' by {
                    if j < s.len() - 1 {
                        assert(s.drop_last()[j] != '.');
                    }
                }
            } else {
                if has_dot(s.drop_last()) {
                    let i = choose|i: int|
                        0 <= i < s.drop_last().len() && #[trigger] s.drop_last()[i] == '.';
                    assert(s[i] == '.');
                }
            }
        }
    }
}

/// Whether the extension after the last dot has at least two characters.
pub open spec fn tld_ok(d: Seq<char>) -> bool {
    has_dot(d) ==> d.len() - 1 - last_dot(d) >= 2
}

/// The disposable-mail domains the validator flags.
pub open spec fn is_disposable_domain(d: Seq<char>) -> bool {
    ||| d == "tempmail.com"@
    ||| d == "throwaway.email"@
    ||| d == "guerrillamail.com"@
    ||| d == "10minutemail.com"@
    ||| d == "mailinator.com"@
    ||| d == "yopmail.com"@
    ||| d == "temp-mail.org"@
    ||| d == "fakeinbox.com"@
}

/// The whole verdict on a raw address: blank is valid; otherwise the
/// normalized form must be at most 254 characters, match the email shape,
/// hold no adjacent dots, and carry a dotted domain whose extension has at
/// least two characters.
pub open spec fn email_ok(raw: Seq<char>) -> bool {
    if blank(raw) {
        true
    } else {
        let nm = lower_of(trim_of(raw));
        &&& nm.len() <= 254
        &&& email_matches(nm)
        &&& !consec_dots(nm)
        &&& match domain_of(nm) {
            Some(d) => has_dot(d) && tld_ok(d),
            None => true,
        }
    }
}

/// Email validation result.
#[derive(Debug, Clone)]
pub struct EmailValidationResult {
    pub is_valid: bool,
    pub normalized: Option<String>,
    pub domain: Option<String>,
    pub is_disposable: bool,
    pub error: Option<String>,
    pub error_ar: Option<String>,
}

/// Whether the characters from `from` on form a domain.
fn domain_check(v: &Vec<char>, from: usize) -> (r: bool)
    requires
        from <= v@.len(),
    ensures
        r == is_domain(v@.skip(from as int)),
{
    let ghost t0 = v@.skip(from as int);
    if from == v.len() {
        proof {
            assert(t0.len() == 0);
            assert(!is_domain(t0));
        }
        return false;
    }
    proof {
        assert(t0[0] == v@[from as int]);
        assert(t0.drop_first() =~= v@.skip(from as int + 1));
    }
    if !alnum_char(v[from]) {
        proof {
            assert(!is_domain(t0));
        }
        return false;
    }
    let mut i: usize = from + 1;
    let mut label_len: usize = 1;
    let mut prev_alnum: bool = true;
    proof {
        assert(is_domain(t0) == domain_tail(v@.skip(i as int), label_len as int, prev_alnum));
    }
    while i < v.len()
        invariant
            from + 1 <= i <= v@.len(),
            1 <= label_len <= i - from,
            t0 == v@.skip(from as int),
            is_domain(t0) == domain_tail(v@.skip(i as int), label_len as int, prev_alnum),
        decreases v@.len() - i,
    {
        let c = v[i];
        let ghost i0 = i as int;
        let ghost ll0 = label_len as int;
        let ghost pa0 = prev_alnum;
        proof {
            assert(v@.skip(i0)[0] == v@[i0]);
            assert(v@.skip(i0).drop_first() =~= v@.skip(i0 + 1));
        }
        if c == '.' {
            if !prev_alnum || label_len > 63 {
                proof {
                    assert(!domain_tail(v@.skip(i0), ll0, pa0));
                }
                return false;
            }
            proof {
                assert(domain_tail(v@.skip(i0), ll0, pa0) == is_domain(v@.skip(i0 + 1)));
            }
            i = i + 1;
            if i == v.len() {
                proof {
                    assert(v@.skip(i as int).len() == 0);
                    assert(!is_domain(v@.skip(i as int)));
                }
                return false;
            }
            proof {
                assert(v@.skip(i as int)[0] == v@[i as int]);
                assert(v@.skip(i as int).drop_first() =~= v@.skip(i as int + 1));
            }
            if !alnum_char(v[i]) {
                proof {
                    assert(!is_domain(v@.skip(i as int)));
                }
                return false;
            }
            proof {
                assert(is_domain(v@.skip(i as int)) == domain_tail(
                    v@.skip(i as int + 1),
                    1,
                    true,
                ));
            }
            label_len = 1;
            prev_alnum = true;
            i = i + 1;
        } else if alnum_char(c) {
            proof {
                assert(domain_tail(v@.skip(i0), ll0, pa0) == domain_tail(
                    v@.skip(i0 + 1),
                    ll0 + 1,
                    true,
                ));
            }
            label_len = label_len + 1;
            prev_alnum = true;
            i = i + 1;
        } else if c == '-' {
            proof {
                assert(domain_tail(v@.skip(i0), ll0, pa0) == domain_tail(
                    v@.skip(i0 + 1),
                    ll0 + 1,
                    false,
                ));
            }
            label_len = label_len + 1;
            prev_alnum = false;
            i = i + 1;
        } else {
            proof {
                assert(!domain_tail(v@.skip(i0), ll0, pa0));
            }
            return false;
        }
    }
    proof {
        assert(v@.skip(i as int).len() == 0);
        assert(domain_tail(v@.skip(i as int), label_len as int, prev_alnum) == (label_len <= 63
            && prev_alnum));
    }
    label_len <= 63 && prev_alnum
}

/// Whether the characters form an address: one `@` splitting a local part
/// from a domain.
fn email_match_check(v: &Vec<char>) -> (r: bool)
    ensures
        r == email_matches(v@),
{
    // The split can only be at the first `@`: a later split would hold this
    // one inside its local part, and neither part may hold an `@`.
    let mut p: usize = 0;
    while p < v.len() && v[p] != '@'
        invariant
            p <= v@.len(),
            forall|j: int| 0 <= j < p ==> v@[j] != '@',
        decreases v@.len() - p,
    {
        p = p + 1;
    }
    if p == v.len() {
        proof {
            assert forall|q: int| !(#[trigger] email_split_at(v@, q)) by {
                if 0 <= q < v@.len() {
                    assert(v@[q] != '@');
                }
            }
        }
        return false;
    }
    let mut ok_local = p > 0;
    let mut i: usize = 0;
    while i < p
        invariant
            i <= p <= v@.len(),
            ok_local == (p > 0 && forall|j: int| 0 <= j < i ==> is_local_char(#[trigger] v@[j])),
        decreases p - i,
    {
        if !local_char(v[i]) {
            ok_local = false;
        }
        i = i + 1;
    }
    let ok = ok_local && domain_check(v, p + 1);
    proof {
        let s = v@;
        if ok {
            assert(is_local(s.take(p as int))) by {
                assert forall|j: int| 0 <= j < p implies is_local_char(#[trigger] s.take(p as int)[j])
                    by {
                    assert(s.take(p as int)[j] == s[j]);
                }
            }
            assert(email_split_at(s, p as int));
        } else {
            assert forall|q: int| !(#[trigger] email_split_at(s, q)) by {
                if 0 <= q < s.len() && s[q] == '@' {
                    assert(q >= p);
                    if q > p {
                        assert(s.take(q)[p as int] == s[p as int]);
                        assert(!is_local_char('@'));
                        assert(!is_local(s.take(q)));
                    } else {
                        // The split at the first `@` itself fails.
                        if ok_local {
                            assert(!is_domain(s.skip(q + 1)));
                        } else {
                            if p > 0 {
                                let j = choose|j: int|
                                    0 <= j < p && !is_local_char(#[trigger] s[j]);
                                assert(s.take(q)[j] == s[j]);
                                assert(!is_local(s.take(q)));
                            } else {
                                assert(s.take(q).len() == 0);
                            }
                        }
                    }
                }
            }
        }
    }
    ok
}

fn consec_dots_check(v: &Vec<char>) -> (r: bool)
    ensures
        r == consec_dots(v@),
{
    if v.len() == 0 {
        return false;
    }
    let mut i: usize = 0;
    while i < v.len() - 1
        invariant
            v@.len() > 0,
            i <= v@.len() - 1,
            forall|j: int| 0 <= j < i ==> !(#[trigger] v@[j] == '.' && v@[j + 1] == '.'),
        decreases v@.len() - i,
    {
        if v[i] == '.' && v[i + 1] == '.' {
            return true;
        }
        i = i + 1;
    }
    false
}

fn has_dot_check(v: &Vec<char>) -> (r: bool)
    ensures
        r == has_dot(v@),
{
    let mut i: usize = 0;
    while i < v.len()
        invariant
            i <= v@.len(),
            forall|j: int| 0 <= j < i ==> #[trigger] v@[j] != '.',
        decreases v@.len() - i,
    {
        if v[i] == '.' {
            return true;
        }
        i = i + 1;
    }
    false
}

fn tld_ok_check(v: &Vec<char>) -> (r: bool)
    ensures
        r == tld_ok(v@),
{
    let mut i: usize = v.len();
    while i > 0
        invariant
            i <= v@.len(),
            forall|j: int| i <= j < v@.len() ==> #[trigger] v@[j] != '.',
        decreases i,
    {
        i = i - 1;
        if v[i] == '.' {
            proof {
                lemma_last_dot(v@);
                assert(has_dot(v@));
                assert(last_dot(v@) == i as int) by {
                    if last_dot(v@) < i as int {
                        assert(v@[i as int] != '.');
                    }
                    if last_dot(v@) > i as int {
                        assert(v@[last_dot(v@)] != '.');
                    }
                }
            }
            return v.len() - 1 - i >= 2;
        }
    }
    proof {
        lemma_last_dot(v@);
        if has_dot(v@) {
            assert(v@[last_dot(v@)] != '.');
        }
    }
    true
}

/// Normalize an email address: trim surrounding whitespace and lower-case.
pub fn normalize_email(email: &str) -> (r: String)
    ensures
        r@ == lower_of(trim_of(email@)),
{
    let v = chars_vec(email);
    let tv = trim_chars(&v);
    let nv = lower_chars(&tv);
    string_from_chars(&nv)
}

/// Extract the domain from an email: what follows the `@` when exactly one
/// is present, lower-cased.
pub fn get_email_domain(email: &str) -> (r: Option<String>)
    ensures
        r is Some <==> domain_of(email@) is Some,
        r matches Some(d) ==> Some(d@) == domain_of(email@),
{
    let v = chars_vec(email);
    let mut p: usize = 0;
    while p < v.len() && v[p] != '@'
        invariant
            p <= v@.len(),
            forall|j: int| 0 <= j < p ==> v@[j] != '@',
        decreases v@.len() - p,
    {
        p = p + 1;
    }
    if p == v.len() {
        proof {
            assert forall|q: int| !(#[trigger] at_unique(v@, q)) by {
                if 0 <= q < v@.len() {
                    assert(v@[q] != '@');
                }
            }
        }
        return None;
    }
    let mut q: usize = p + 1;
    while q < v.len() && v[q] != '@'
        invariant
            p < q <= v@.len(),
            forall|j: int| p < j < q ==> v@[j] != '@',
        decreases v@.len() - q,
    {
        q = q + 1;
    }
    if q < v.len() {
        // A second `@`: no unique split exists.
        proof {
            assert(v@[q as int] == '@');
            assert forall|x: int| !(#[trigger] at_unique(v@, x)) by {
                if at_unique(v@, x) {
                    if x != p as int {
                        assert(v@[p as int] != '@');
                    } else {
                        assert(v@[q as int] != '@');
                    }
                }
            }
        }
        return None;
    }
    proof {
        assert(at_unique(v@, p as int));
        let w = choose|x: int| #[trigger] at_unique(v@, x);
        if w != p as int {
            assert(v@[w] != '@');
        }
    }
    let mut dv: Vec<char> = Vec::new();
    let mut i: usize = p + 1;
    while i < v.len()
        invariant
            p + 1 <= i <= v@.len(),
            dv@ =~= v@.skip(p as int + 1).take(i as int - p as int - 1),
        decreases v@.len() - i,
    {
        dv.push(v[i]);
        proof {
            assert(v@.skip(p as int + 1)[i as int - p as int - 1] == v@[i as int]);
            assert(v@.skip(p as int + 1).take(i as int - p as int) =~= v@.skip(p as int + 1).take(
                i as int - p as int - 1,
            ).push(v@[i as int]));
        }
        i = i + 1;
    }
    proof {
        assert(dv@ =~= v@.skip(p as int + 1));
    }
    let lv = lower_chars(&dv);
    Some(string_from_chars(&lv))
}

/// Whether the email's domain is one of the disposable-mail domains.
pub fn is_disposable_email(email: &str) -> (r: bool)
    ensures
        r == match domain_of(email@) {
            Some(d) => is_disposable_domain(d),
            None => false,
        },
{
    match get_email_domain(email) {
        Some(d) => {
            let ds = d.as_str();
            str_eq(ds, "tempmail.com") || str_eq(ds, "throwaway.email") || str_eq(
                ds,
                "guerrillamail.com",
            ) || str_eq(ds, "10minutemail.com") || str_eq(ds, "mailinator.com") || str_eq(
                ds,
                "yopmail.com",
            ) || str_eq(ds, "temp-mail.org") || str_eq(ds, "fakeinbox.com")
        },
        None => false,
    }
}

/// Validate an email address. Blank input is valid — the field is optional;
/// otherwise the normalized form must pass every check of [`email_ok`].
pub fn validate_email(email: &str) -> (r: EmailValidationResult)
    ensures
        r.is_valid == email_ok(email@),
        blank(email@) ==> r.normalized is None && r.domain is None && !r.is_disposable && r.error
            is None,
        (!blank(email@) && email_ok(email@)) ==> {
            &&& r.normalized matches Some(s) && s@ == lower_of(trim_of(email@))
            &&& (r.domain is Some <==> domain_of(lower_of(trim_of(email@))) is Some)
            &&& (r.domain matches Some(d) ==> Some(d@) == domain_of(lower_of(trim_of(email@))))
            &&& r.is_disposable == match domain_of(lower_of(trim_of(email@))) {
                Some(d) => is_disposable_domain(d),
                None => false,
            }
            &&& r.error is None
        },
        !email_ok(email@) ==> r.normalized is None && r.domain is None && !r.is_disposable
            && r.error is Some,
{
    let v = chars_vec(email);
    let tv = trim_chars(&v);
    proof {
        lemma_trim_empty_iff_all_space(v@);
    }
    if tv.len() == 0 {
        return EmailValidationResult {
            is_valid: true,
            normalized: None,
            domain: None,
            is_disposable: false,
            error: None,
            error_ar: None,
        };
    }
    let nv = lower_chars(&tv);
    if nv.len() > 254 {
        return EmailValidationResult {
            is_valid: false,
            normalized: None,
            domain: None,
            is_disposable: false,
            error: Some(String::from_str("Email is too long")),
            error_ar: Some(String::from_str("البريد الإلكتروني طويل جداً")),
        };
    }
    if !email_match_check(&nv) {
        return EmailValidationResult {
            is_valid: false,
            normalized: None,
            domain: None,
            is_disposable: false,
            error: Some(String::from_str("Invalid email format")),
            error_ar: Some(String::from_str("صيغة البريد الإلكتروني غير صالحة")),
        };
    }
    if consec_dots_check(&nv) {
        return EmailValidationResult {
            is_valid: false,
            normalized: None,
            domain: None,
            is_disposable: false,
            error: Some(String::from_str("Email contains consecutive dots")),
            error_ar: Some(String::from_str("البريد الإلكتروني يحتوي على نقاط متتالية")),
        };
    }
    let normalized = string_from_chars(&nv);
    let domain = get_email_domain(normalized.as_str());
    match &domain {
        Some(d) => {
            let dv = chars_vec(d.as_str());
            if !has_dot_check(&dv) {
                return EmailValidationResult {
                    is_valid: false,
                    normalized: None,
                    domain: None,
                    is_disposable: false,
                    error: Some(String::from_str("Invalid email domain")),
                    error_ar: Some(String::from_str("نطاق البريد الإلكتروني غير صالح")),
                };
            }
            if !tld_ok_check(&dv) {
                return EmailValidationResult {
                    is_valid: false,
                    normalized: None,
                    domain: None,
                    is_disposable: false,
                    error: Some(String::from_str("Invalid domain extension")),
                    error_ar: Some(String::from_str("امتداد النطاق غير صالح")),
                };
            }
        },
        None => {},
    }
    let is_disposable = is_disposable_email(normalized.as_str());
    EmailValidationResult {
        is_valid: true,
        normalized: Some(normalized),
        domain,
        is_disposable,
        error: None,
        error_ar: None,
    }
}

/// Check whether an email is valid.
pub fn is_valid_email(email: &str) -> (r: bool)
    ensures
        r == email_ok(email@),
{
    validate_email(email).is_valid
}

/// Validate an email and require it: blank input is rejected, anything else
/// is judged as [`validate_email`] judges it.
pub fn validate_required_email(email: &str) -> (r: EmailValidationResult)
    ensures
        r.is_valid == (!blank(email@) && email_ok(email@)),
        blank(email@) ==> r.normalized is None && r.domain is None && !r.is_disposable && r.error
            is Some,
        (!blank(email@) && email_ok(email@)) ==> {
            &&& r.normalized matches Some(s) && s@ == lower_of(trim_of(email@))
            &&& (r.domain matches Some(d) ==> Some(d@) == domain_of(lower_of(trim_of(email@))))
            &&& r.error is None
        },
        (!blank(email@) && !email_ok(email@)) ==> r.normalized is None && r.domain is None
            && !r.is_disposable && r.error is Some,
{
    let v = chars_vec(email);
    let tv = trim_chars(&v);
    proof {
        lemma_trim_empty_iff_all_space(v@);
    }
    if tv.len() == 0 {
        return EmailValidationResult {
            is_valid: false,
            normalized: None,
            domain: None,
            is_disposable: false,
            error: Some(String::from_str("Email is required")),
            error_ar: Some(String::from_str("البريد الإلكتروني مطلوب")),
        };
    }
    validate_email(email)
}

} // verus!
