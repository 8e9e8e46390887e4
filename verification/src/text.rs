//! Text utilities shared by the validators: character classes, trimming,
//! ASCII case folding, string building and decimal rendering — all over
//! `Seq<char>` views.

use vstd::prelude::*;
use vstd::string::StrSliceExecFns;
use vstd::string::StringExecFns;

verus! {

/// Whitespace, as the White_Space property lists it.
pub open spec fn is_space(c: char) -> bool {
    c == ' ' || c == '\t' || c == '\n' || c == '\r' || c == '\u{b}' || c == '\u{c}' || c == '\u{85}'
        || c == '\u{a0}' || c == '\u{1680}' || ('\u{2000}' <= c && c <= '\u{200a}') || c
        == '\u{2028}' || c == '\u{2029}' || c == '\u{202f}' || c == '\u{205f}' || c == '\u{3000}'
}

/// Executable view of [`is_space`].
pub fn space_char(c: char) -> (r: bool)
    ensures
        r == is_space(c),
{
    c == ' ' || c == '\t' || c == '\n' || c == '\r' || c == '\u{b}' || c == '\u{c}' || c == '\u{85}'
        || c == '\u{a0}' || c == '\u{1680}' || ('\u{2000}' <= c && c <= '\u{200a}') || c
        == '\u{2028}' || c == '\u{2029}' || c == '\u{202f}' || c == '\u{205f}' || c == '\u{3000}'
}

pub open spec fn is_digit(c: char) -> bool {
    '0' <= c && c <= '9'
}

/// Executable view of [`is_digit`].
pub fn digit_char(c: char) -> (r: bool)
    ensures
        r == is_digit(c),
{
    '0' <= c && c <= '9'
}

pub open spec fn is_ascii_alpha(c: char) -> bool {
    ('a' <= c && c <= 'z') || ('A' <= c && c <= 'Z')
}

pub open spec fn is_alnum(c: char) -> bool {
    is_digit(c) || is_ascii_alpha(c)
}

/// Executable view of [`is_alnum`].
pub fn alnum_char(c: char) -> (r: bool)
    ensures
        r == is_alnum(c),
{
    ('0' <= c && c <= '9') || ('a' <= c && c <= 'z') || ('A' <= c && c <= 'Z')
}

/// ASCII lower-casing of one character; other characters pass unchanged.
pub open spec fn to_lower(c: char) -> char {
    if 'A' <= c && c <= 'Z' {
        ((c as u32) + 32) as char
    } else {
        c
    }
}

/// Executable view of [`to_lower`].
pub fn lower_char(c: char) -> (r: char)
    ensures
        r == to_lower(c),
{
    if 'A' <= c && c <= 'Z' {
        (((c as u32) + 32) as u8) as char
    } else {
        c
    }
}

/// ASCII lower-casing of a whole sequence.
pub open spec fn lower_of(s: Seq<char>) -> Seq<char> {
    s.map_values(|c: char| to_lower(c))
}

/// The sequence with leading whitespace removed.
pub open spec fn trim_start_of(s: Seq<char>) -> Seq<char>
    decreases s.len(),
{
    if s.len() > 0 && is_space(s[0]) {
        trim_start_of(s.drop_first())
    } else {
        s
    }
}

/// The sequence with trailing whitespace removed.
pub open spec fn trim_end_of(s: Seq<char>) -> Seq<char>
    decreases s.len(),
{
    if s.len() > 0 && is_space(s.last()) {
        trim_end_of(s.drop_last())
    } else {
        s
    }
}

/// The sequence with surrounding whitespace removed.
pub open spec fn trim_of(s: Seq<char>) -> Seq<char> {
    trim_end_of(trim_start_of(s))
}

/// Whether the sequence is empty or whitespace only — what trimming to
/// emptiness means.
pub open spec fn all_space(s: Seq<char>) -> bool {
    forall|i: int| 0 <= i < s.len() ==> is_space(#[trigger] s[i])
}

pub proof fn lemma_trim_start_bounds(s: Seq<char>)
    ensures
        exists|a: int|
            {
                &&& 0 <= a <= s.len()
                &&& #[trigger] trim_start_of(s) =~= s.skip(a)
                &&& forall|i: int| 0 <= i < a ==> is_space(#[trigger] s[i])
                &&& (a < s.len() ==> !is_space(s[a]))
            },
    decreases s.len(),
{
    if s.len() > 0 && is_space(s[0]) {
        lemma_trim_start_bounds(s.drop_first());
        let a0 = choose|a: int|
            {
                &&& 0 <= a <= s.drop_first().len()
                &&& #[trigger] trim_start_of(s.drop_first()) =~= s.drop_first().skip(a)
                &&& forall|i: int| 0 <= i < a ==> is_space(#[trigger] s.drop_first()[i])
                &&& (a < s.drop_first().len() ==> !is_space(s.drop_first()[a]))
            };
        assert(s.drop_first().skip(a0) =~= s.skip(a0 + 1));
        assert forall|i: int| 0 <= i < a0 + 1 implies is_space(#[trigger] s[i]) by {
            if i > 0 {
                assert(is_space(s.drop_first()[i - 1]));
            }
        }
        assert(trim_start_of(s) =~= s.skip(a0 + 1));
    } else {
        assert(trim_start_of(s) =~= s.skip(0));
    }
}

/// An all-whitespace sequence trims to nothing, and conversely.
pub proof fn lemma_trim_empty_iff_all_space(s: Seq<char>)
    ensures
        trim_of(s).len() == 0 <==> all_space(s),
    decreases s.len(),
{
    if s.len() == 0 {
    } else if is_space(s[0]) {
        lemma_trim_empty_iff_all_space(s.drop_first());
        assert(trim_of(s) == trim_of(s.drop_first()));
        if trim_of(s).len() == 0 {
            assert forall|i: int| 0 <= i < s.len() implies is_space(#[trigger] s[i]) by {
                if i > 0 {
                    assert(is_space(s.drop_first()[i - 1]));
                }
            }
        } else {
            if all_space(s) {
                assert forall|i: int| 0 <= i < s.drop_first().len() implies is_space(
                    #[trigger] s.drop_first()[i],
                ) by {
                    assert(is_space(s[i + 1]));
                }
            }
        }
    } else {
        assert(trim_start_of(s) == s);
        if trim_end_of(s).len() == 0 {
            lemma_trim_end_empty_all_space(s);
        }
        assert(!all_space(s)) by {
            assert(!is_space(s[0]));
        }
    }
}

/// A sequence whose end trims to nothing was whitespace only.
pub proof fn lemma_trim_end_empty_all_space(s: Seq<char>)
    requires
        trim_end_of(s).len() == 0,
    ensures
        all_space(s),
    decreases s.len(),
{
    if s.len() > 0 {
        if is_space(s.last()) {
            lemma_trim_end_empty_all_space(s.drop_last());
            assert forall|i: int| 0 <= i < s.len() implies is_space(#[trigger] s[i]) by {
                if i < s.len() - 1 {
                    assert(is_space(s.drop_last()[i]));
                }
            }
        } else {
            assert(trim_end_of(s) == s);
        }
    }
}

pub proof fn lemma_trim_end_bounds(s: Seq<char>)
    ensures
        exists|b: int|
            {
                &&& 0 <= b <= s.len()
                &&& #[trigger] trim_end_of(s) =~= s.take(b)
                &&& forall|i: int| b <= i < s.len() ==> is_space(#[trigger] s[i])
                &&& (b > 0 ==> !is_space(s[b - 1]))
            },
    decreases s.len(),
{
    if s.len() > 0 && is_space(s.last()) {
        lemma_trim_end_bounds(s.drop_last());
        let b0 = choose|b: int|
            {
                &&& 0 <= b <= s.drop_last().len()
                &&& #[trigger] trim_end_of(s.drop_last()) =~= s.drop_last().take(b)
                &&& forall|i: int| b <= i < s.drop_last().len() ==> is_space(
                    #[trigger] s.drop_last()[i],
                )
                &&& (b > 0 ==> !is_space(s.drop_last()[b - 1]))
            };
        assert(s.drop_last().take(b0) =~= s.take(b0));
        assert forall|i: int| b0 <= i < s.len() implies is_space(#[trigger] s[i]) by {
            if i < s.len() - 1 {
                assert(is_space(s.drop_last()[i]));
            }
        }
        assert(trim_end_of(s) =~= s.take(b0));
    } else {
        assert(trim_end_of(s) =~= s.take(s.len() as int));
    }
}

/// The characters of `v`, surrounding whitespace removed.
pub fn trim_chars(v: &Vec<char>) -> (r: Vec<char>)
    ensures
        r@ == trim_of(v@),
{
    let n = v.len();
    let mut a: usize = 0;
    while a < n && space_char(v[a])
        invariant
            a <= n,
            n == v@.len(),
            forall|i: int| 0 <= i < a ==> is_space(#[trigger] v@[i]),
        decreases n - a,
    {
        a = a + 1;
    }
    proof {
        lemma_trim_start_bounds(v@);
        let a0 = choose|x: int|
            {
                &&& 0 <= x <= v@.len()
                &&& #[trigger] trim_start_of(v@) =~= v@.skip(x)
                &&& forall|i: int| 0 <= i < x ==> is_space(#[trigger] v@[i])
                &&& (x < v@.len() ==> !is_space(v@[x]))
            };
        if a0 < a as int {
            assert(is_space(v@[a0]));
        }
        if (a as int) < a0 {
            assert(is_space(v@[a as int]));
        }
        assert(trim_start_of(v@) =~= v@.skip(a as int));
    }
    let ghost t = v@.skip(a as int);
    if a == n {
        let r: Vec<char> = Vec::new();
        proof {
            assert(t =~= Seq::<char>::empty());
            assert(trim_end_of(t) == t);
            assert(r@ =~= trim_of(v@));
        }
        return r;
    }
    let mut b: usize = n;
    while b > a && space_char(v[b - 1])
        invariant
            a <= b <= n,
            n == v@.len(),
            forall|i: int| b <= i < n ==> is_space(#[trigger] v@[i]),
        decreases b,
    {
        b = b - 1;
    }
    proof {
        // `b > a` here: position `a` is not a space, so the backward scan
        // stops at or after `a + 1`.
        assert(!is_space(v@[a as int]));
        assert(b > a);
        lemma_trim_end_bounds(t);
        let b0 = choose|x: int|
            {
                &&& 0 <= x <= t.len()
                &&& #[trigger] trim_end_of(t) =~= t.take(x)
                &&& forall|i: int| x <= i < t.len() ==> is_space(#[trigger] t[i])
                &&& (x > 0 ==> !is_space(t[x - 1]))
            };
        let bt = b as int - a as int;
        assert forall|i: int| bt <= i < t.len() implies is_space(#[trigger] t[i]) by {
            assert(t[i] == v@[a as int + i]);
        }
        assert(!is_space(t[bt - 1])) by {
            assert(t[bt - 1] == v@[b as int - 1]);
        }
        if b0 < bt {
            assert(is_space(t[bt - 1]));
        }
        if bt < b0 {
            assert(is_space(t[b0 - 1])) by {
                assert(t[b0 - 1] == v@[a as int + b0 - 1]);
                assert(b as int <= a as int + b0 - 1 < v@.len());
            }
        }
        assert(trim_end_of(t) =~= t.take(bt));
    }
    let mut r: Vec<char> = Vec::new();
    let mut i: usize = a;
    while i < b
        invariant
            a <= i <= b <= n,
            n == v@.len(),
            r@ =~= v@.skip(a as int).take(i as int - a as int),
        decreases b - i,
    {
        r.push(v[i]);
        proof {
            assert(v@.skip(a as int)[i as int - a as int] == v@[i as int]);
            assert(v@.skip(a as int).take(i as int + 1 - a as int) =~= v@.skip(a as int).take(
                i as int - a as int,
            ).push(v@[i as int]));
        }
        i = i + 1;
    }
    proof {
        assert(r@ =~= trim_of(v@));
    }
    r
}

/// The characters of `v`, ASCII-lower-cased.
pub fn lower_chars(v: &Vec<char>) -> (r: Vec<char>)
    ensures
        r@ == lower_of(v@),
{
    let mut r: Vec<char> = Vec::new();
    let mut i: usize = 0;
    while i < v.len()
        invariant
            i <= v.len(),
            r@ =~= lower_of(v@).take(i as int),
        decreases v.len() - i,
    {
        r.push(lower_char(v[i]));
        proof {
            assert(lower_of(v@)[i as int] == to_lower(v@[i as int]));
            assert(lower_of(v@).take(i as int + 1) =~= lower_of(v@).take(i as int).push(
                to_lower(v@[i as int]),
            ));
        }
        i = i + 1;
    }
    proof {
        assert(lower_of(v@).take(v@.len() as int) =~= lower_of(v@));
    }
    r
}

/// Relies on `String::push`: appends the given character to the end of the
/// string.
#[verifier::external_body]
pub fn push_char(s: &mut String, c: char)
    ensures
        final(s)@ == old(s)@.push(c),
{
    s.push(c);
}

/// The characters of a string, as a vector.
pub fn chars_vec(s: &str) -> (r: Vec<char>)
    ensures
        r@ == s@,
{
    let n = s.unicode_len();
    let mut r: Vec<char> = Vec::new();
    let mut i: usize = 0;
    while i < n
        invariant
            i <= n,
            n == s@.len(),
            r@ =~= s@.take(i as int),
        decreases n - i,
    {
        r.push(s.get_char(i));
        i = i + 1;
    }
    proof {
        assert(s@.take(n as int) =~= s@);
    }
    r
}

/// A string holding exactly the given characters.
pub fn string_from_chars(v: &Vec<char>) -> (r: String)
    ensures
        r@ == v@,
{
    let mut r = String::new();
    let mut i: usize = 0;
    while i < v.len()
        invariant
            i <= v.len(),
            r@ =~= v@.take(i as int),
        decreases v.len() - i,
    {
        push_char(&mut r, v[i]);
        i = i + 1;
    }
    proof {
        assert(v@.take(v@.len() as int) =~= v@);
    }
    r
}

/// Whether two strings hold the same characters.
pub fn str_eq(a: &str, b: &str) -> (r: bool)
    ensures
        r == (a@ == b@),
{
    let na = a.unicode_len();
    let nb = b.unicode_len();
    if na != nb {
        proof {
            assert(a@ != b@);
        }
        return false;
    }
    let mut i: usize = 0;
    while i < na
        invariant
            i <= na,
            na == a@.len(),
            na == b@.len(),
            forall|j: int| 0 <= j < i ==> a@[j] == b@[j],
        decreases na - i,
    {
        if a.get_char(i) != b.get_char(i) {
            proof {
                assert(a@[i as int] != b@[i as int]);
            }
            return false;
        }
        i = i + 1;
    }
    proof {
        assert(a@ =~= b@);
    }
    true
}

/// The decimal digit character of one value below ten.
pub open spec fn digit_of(d: int) -> char {
    (('0' as u32) + d as u32) as char
}

/// The decimal rendering of a number, most significant digit first.
pub open spec fn dec_of(n: int) -> Seq<char>
    decreases n,
{
    if n < 10 {
        seq![digit_of(n)]
    } else {
        dec_of(n / 10).push(digit_of(n % 10))
    }
}

/// Whether the sequence is one or more decimal digits.
pub open spec fn is_digits(s: Seq<char>) -> bool {
    s.len() >= 1 && forall|i: int| 0 <= i < s.len() ==> is_digit(#[trigger] s[i])
}

/// The decimal value of a digit sequence.
pub open spec fn dec_val(s: Seq<char>) -> int
    decreases s.len(),
{
    if s.len() == 0 {
        0
    } else {
        dec_val(s.drop_last()) * 10 + ((s.last() as u32) - 48)
    }
}

/// Parse one or more decimal digits as a `u32`; anything else, or a value
/// beyond the `u32` range, is rejected.
pub fn parse_u32_digits(v: &Vec<char>, from: usize) -> (r: Option<u32>)
    requires
        from <= v@.len(),
    ensures
        r matches Some(n) ==> {
            &&& is_digits(v@.skip(from as int))
            &&& n == dec_val(v@.skip(from as int))
        },
        r is None ==> !(is_digits(v@.skip(from as int)) && dec_val(v@.skip(from as int))
            <= u32::MAX),
{
    let ghost t = v@.skip(from as int);
    if from == v.len() {
        return None;
    }
    let mut val: u64 = 0;
    let mut big = false;
    let mut i: usize = from;
    while i < v.len()
        invariant
            from <= i <= v@.len(),
            t == v@.skip(from as int),
            forall|j: int| 0 <= j < i - from ==> is_digit(#[trigger] t[j]),
            !big ==> val == dec_val(t.take(i as int - from as int)) && val <= u32::MAX,
            big ==> dec_val(t.take(i as int - from as int)) > u32::MAX,
        decreases v@.len() - i,
    {
        let c = v[i];
        proof {
            assert(t[i as int - from as int] == v@[i as int]);
            assert(t.take(i as int + 1 - from as int).drop_last() =~= t.take(
                i as int - from as int,
            ));
            assert(t.take(i as int + 1 - from as int).last() == v@[i as int]);
        }
        if !digit_char(c) {
            return None;
        }
        let d: u64 = (c as u32 - 48) as u64;
        if !big {
            val = val * 10 + d;
            if val > u32::MAX as u64 {
                big = true;
            }
        }
        i = i + 1;
    }
    proof {
        assert(t.take(t.len() as int) =~= t);
        assert(is_digits(t)) by {
            assert(t.len() >= 1);
        }
    }
    if big {
        None
    } else {
        Some(val as u32)
    }
}

/// A digit string zero-padded on the left to at least four characters.
pub open spec fn zero_pad4(d: Seq<char>) -> Seq<char> {
    if d.len() >= 4 {
        d
    } else {
        Seq::new((4 - d.len()) as nat, |i: int| '0') + d
    }
}

/// Render a number in decimal, zero-padded to at least four digits.
pub fn u64_to_padded4_string(n: u64) -> (r: String)
    ensures
        r@ == zero_pad4(dec_of(n as int)),
{
    let digits = u64_to_string(n);
    let dv = chars_vec(digits.as_str());
    let mut out: Vec<char> = Vec::new();
    let mut pad: usize = if dv.len() >= 4 {
        0
    } else {
        4 - dv.len()
    };
    let ghost total_pad = pad as int;
    while pad > 0
        invariant
            pad <= total_pad,
            out@ =~= Seq::new((total_pad - pad) as nat, |i: int| '0'),
        decreases pad,
    {
        out.push('0');
        proof {
            assert(out@ =~= Seq::new((total_pad - pad + 1) as nat, |i: int| '0'));
        }
        pad = pad - 1;
    }
    let mut i: usize = 0;
    let ghost padded = out@;
    while i < dv.len()
        invariant
            i <= dv@.len(),
            out@ =~= padded + dv@.take(i as int),
        decreases dv@.len() - i,
    {
        out.push(dv[i]);
        proof {
            assert(padded + dv@.take(i as int + 1) =~= (padded + dv@.take(i as int)).push(
                dv@[i as int],
            ));
        }
        i = i + 1;
    }
    proof {
        assert(dv@.take(dv@.len() as int) =~= dv@);
        assert(out@ =~= zero_pad4(dec_of(n as int)));
    }
    string_from_chars(&out)
}

/// Render a number in decimal.
pub fn u64_to_string(n: u64) -> (r: String)
    ensures
        r@ == dec_of(n as int),
    decreases n,
{
    if n < 10 {
        let mut s = String::new();
        let c = ((('0' as u32) + n as u32) as u8) as char;
        push_char(&mut s, c);
        proof {
            assert(c == digit_of(n as int));
            assert(s@ =~= seq![digit_of(n as int)]);
        }
        s
    } else {
        let mut s = u64_to_string(n / 10);
        let c = ((('0' as u32) + (n % 10) as u32) as u8) as char;
        push_char(&mut s, c);
        proof {
            assert(c == digit_of(n as int % 10));
        }
        s
    }
}

} // verus!
