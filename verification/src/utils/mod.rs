//! Input validation, price and text formatting, and parsing helpers.
pub mod crypto;
pub mod file_utils;
pub mod notification;
pub mod numbers;
pub mod textops;
pub mod validation;

use vstd::prelude::*;
pub use crypto::{
    generate_salt, generate_secure_password, hash_data_sha256, hash_password, validate_password_strength,
    verify_password,
};
pub use numbers::{generate_barcode_checksum, generate_user_token, parse_price, verify_user_token};
pub use textops::{
    calculate_price_trend, format_datetime, format_price, sanitize_search_query, slug_from_string, Currency,
    DateTimeFormat, DistanceUnit, PriceTrend,
};
use crate::text::{
    utf8_len,
    byte_len, chars_of, has_char, is_alphanumeric, is_ascii_alnum, is_ascii_alnum_spec, is_ascii_alpha_spec,
    is_ascii_lower, is_ascii_lower_spec, is_ascii_upper, is_ascii_upper_spec, is_blank, is_digit,
    is_digit_spec, all_whitespace, msg_view, owned, string_from_chars, unicode_alphanumeric,
};

verus! {

broadcast use vstd::string::group_string_axioms;

// ---------------------------------------------------------------------------
// Shared character-sequence helpers
// ---------------------------------------------------------------------------

/// The characters `v[lo..hi]`.
pub fn sub_chars(v: &Vec<char>, lo: usize, hi: usize) -> (r: Vec<char>)
    requires
        lo <= hi <= v.len(),
    ensures
        r@ == v@.subrange(lo as int, hi as int),
{
    let mut r: Vec<char> = Vec::new();
    let mut i = lo;
    while i < hi
        invariant
            lo <= i <= hi <= v.len(),
            r@ == v@.subrange(lo as int, i as int),
        decreases hi - i,
    {
        r.push(v[i]);
        i = i + 1;
    }
    r
}

// ---------------------------------------------------------------------------
// E-mail addresses
// ---------------------------------------------------------------------------

/// Characters allowed before the `@`.
pub open spec fn email_local_char(c: char) -> bool {
    is_ascii_alnum_spec(c) || c == '.' || c == '_' || c == '%' || c == '+' || c == '-'
}

/// Characters allowed after the `@`.
pub open spec fn email_domain_char(c: char) -> bool {
    is_ascii_alnum_spec(c) || c == '.' || c == '-'
}

/// Two dots stand at `i` and `i + 1`.
pub open spec fn dot_pair_at(s: Seq<char>, i: int) -> bool {
    s[i] == '.' && s[i + 1] == '.'
}

/// Non-empty, does not begin or end with a dot, and has no two dots in a row.
pub open spec fn dotted_shape(s: Seq<char>) -> bool {
    &&& s.len() > 0
    &&& s[0] != '.'
    &&& s[s.len() - 1] != '.'
    &&& forall|i: int| 0 <= i < s.len() - 1 ==> !#[trigger] dot_pair_at(s, i)
}

/// The label after the last dot exists, has at least two characters, all ASCII letters.
pub open spec fn valid_tld(d: Seq<char>) -> bool {
    exists|p: int|
        #![trigger d[p]]
        0 <= p < d.len() && d[p] == '.' && (forall|q: int| p < q < d.len() ==> d[q] != '.') && d.len()
            - p - 1 >= 2 && (forall|q: int| p < q < d.len() ==> is_ascii_alpha_spec(d[q]))
}

/// The part before the `@`.
pub open spec fn valid_email_local(l: Seq<char>) -> bool {
    dotted_shape(l) && forall|i: int| 0 <= i < l.len() ==> email_local_char(#[trigger] l[i])
}

/// The part after the `@`.
pub open spec fn valid_email_domain(d: Seq<char>) -> bool {
    &&& dotted_shape(d)
    &&& forall|i: int| 0 <= i < d.len() ==> email_domain_char(#[trigger] d[i])
    &&& valid_tld(d)
}

/// Exactly one `@`, with a valid local part before it and a valid domain after it.
pub open spec fn valid_email_spec(s: Seq<char>) -> bool {
    exists|k: int|
        #![trigger s[k]]
        0 <= k < s.len() && s[k] == '@' && (forall|j: int| 0 <= j < s.len() && s[j] == '@' ==> j == k)
            && valid_email_local(s.subrange(0, k)) && valid_email_domain(s.subrange(k + 1, s.len() as int))
}

/// Whether `v` has the dotted shape.
fn is_dotted_shape(v: &Vec<char>) -> (b: bool)
    ensures
        b == dotted_shape(v@),
{
    if v.len() == 0 {
        return false;
    }
    if v[0] == '.' || v[v.len() - 1] == '.' {
        return false;
    }
    let mut i: usize = 0;
    while i + 1 < v.len()
        invariant
            v.len() > 0,
            i < v.len(),
            forall|j: int| 0 <= j < i ==> !#[trigger] dot_pair_at(v@, j),
        decreases v.len() - i,
    {
        if v[i] == '.' && v[i + 1] == '.' {
            assert(dot_pair_at(v@, i as int));
            return false;
        }
        i = i + 1;
    }
    true
}

/// Whether every character of `v` may stand before the `@`.
fn all_local_chars(v: &Vec<char>) -> (b: bool)
    ensures
        b == forall|i: int| 0 <= i < v@.len() ==> email_local_char(#[trigger] v@[i]),
{
    let mut i: usize = 0;
    while i < v.len()
        invariant
            i <= v.len(),
            forall|j: int| 0 <= j < i ==> email_local_char(#[trigger] v@[j]),
        decreases v.len() - i,
    {
        let c = v[i];
        if !(is_ascii_alnum(c) || c == '.' || c == '_' || c == '%' || c == '+' || c == '-') {
            return false;
        }
        i = i + 1;
    }
    true
}

/// Whether every character of `v` may stand after the `@`.
fn all_domain_chars(v: &Vec<char>) -> (b: bool)
    ensures
        b == forall|i: int| 0 <= i < v@.len() ==> email_domain_char(#[trigger] v@[i]),
{
    let mut i: usize = 0;
    while i < v.len()
        invariant
            i <= v.len(),
            forall|j: int| 0 <= j < i ==> email_domain_char(#[trigger] v@[j]),
        decreases v.len() - i,
    {
        let c = v[i];
        if !(is_ascii_alnum(c) || c == '.' || c == '-') {
            return false;
        }
        i = i + 1;
    }
    true
}

/// Position of the last occurrence of `c` in `v`.
pub fn last_index_of(v: &Vec<char>, c: char) -> (r: Option<usize>)
    ensures
        r matches Some(p) ==> p < v@.len() && v@[p as int] == c && forall|q: int|
            p < q < v@.len() ==> v@[q] != c,
        r is None ==> forall|q: int| 0 <= q < v@.len() ==> v@[q] != c,
{
    let mut i = v.len();
    while i > 0
        invariant
            i <= v.len(),
            forall|q: int| i <= q < v@.len() ==> v@[q] != c,
        decreases i,
    {
        if v[i - 1] == c {
            return Some(i - 1);
        }
        i = i - 1;
    }
    None
}

/// Whether `v` ends in a valid top-level label.
fn has_valid_tld(v: &Vec<char>) -> (b: bool)
    ensures
        b == valid_tld(v@),
{
    match last_index_of(v, '.') {
        None => {
            assert(!valid_tld(v@));
            false
        },
        Some(p) => {
            if v.len() - p - 1 < 2 {
                assert(!valid_tld(v@)) by {
                    assert forall|p2: int|
                        0 <= p2 < v@.len() && v@[p2] == '.' && (forall|q: int|
                            p2 < q < v@.len() ==> v@[q] != '.') implies p2 == p by {
                        if p2 < p {
                            assert(v@[p as int] == '.');
                        }
                    }
                }
                return false;
            }
            let mut q = p + 1;
            while q < v.len()
                invariant
                    p < q <= v.len(),
                    v@[p as int] == '.',
                    forall|k: int| p < k < v@.len() ==> v@[k] != '.',
                    forall|k: int| p < k < q ==> is_ascii_alpha_spec(v@[k]),
                decreases v.len() - q,
            {
                let c = v[q];
                if !(is_ascii_upper(c) || is_ascii_lower(c)) {
                    assert(!valid_tld(v@)) by {
                        assert forall|p2: int|
                            0 <= p2 < v@.len() && v@[p2] == '.' && (forall|k: int|
                                p2 < k < v@.len() ==> v@[k] != '.') implies p2 == p by {
                            if p2 < p {
                                assert(v@[p as int] == '.');
                            }
                        }
                    }
                    return false;
                }
                q = q + 1;
            }
            assert(v@[p as int] == '.');
            true
        },
    }
}

/// Strict e-mail check: exactly one `@`; local part of ASCII letters, digits
/// and `._%+-`; domain of ASCII letters, digits, `.` and `-`; neither part
/// empty, starting or ending with a dot, or holding two dots in a row; the
/// domain has a dot and its last label is at least two ASCII letters.
pub fn validate_email(email: &str) -> (b: bool)
    ensures
        b == valid_email_spec(email@),
{
    let cs = chars_of(email);
    let mut at: Option<usize> = None;
    let mut i: usize = 0;
    while i < cs.len()
        invariant
            cs@ == email@,
            i <= cs.len(),
            at is None ==> forall|j: int| 0 <= j < i ==> cs@[j] != '@',
            at matches Some(k) ==> k < i && cs@[k as int] == '@' && forall|j: int|
                0 <= j < i && cs@[j] == '@' ==> j == k,
        decreases cs.len() - i,
    {
        if cs[i] == '@' {
            if let Some(k) = at {
                assert(!valid_email_spec(email@)) by {
                    assert forall|k2: int|
                        0 <= k2 < cs@.len() && cs@[k2] == '@' implies !(forall|j: int|
                        0 <= j < cs@.len() && cs@[j] == '@' ==> j == k2) by {
                        if k2 == k {
                            assert(cs@[i as int] == '@');
                        } else {
                            assert(cs@[k as int] == '@');
                        }
                    }
                }
                return false;
            }
            at = Some(i);
        }
        i = i + 1;
    }
    let k = match at {
        None => {
            return false;
        },
        Some(k) => k,
    };
    let local = sub_chars(&cs, 0, k);
    let domain = sub_chars(&cs, k + 1, cs.len());
    let ok = is_dotted_shape(&local) && is_dotted_shape(&domain) && all_local_chars(&local)
        && all_domain_chars(&domain) && has_valid_tld(&domain);
    proof {
        if valid_email_spec(email@) {
            let k2 = choose|k2: int|
                #![trigger email@[k2]]
                0 <= k2 < email@.len() && email@[k2] == '@' && (forall|j: int|
                    0 <= j < email@.len() && email@[j] == '@' ==> j == k2) && valid_email_local(
                    email@.subrange(0, k2),
                ) && valid_email_domain(email@.subrange(k2 + 1, email@.len() as int));
            assert(k2 == k);
        }
        if ok {
            assert(cs@[k as int] == '@');
        }
    }
    ok
}

// ---------------------------------------------------------------------------
// Passwords, usernames, barcodes
// ---------------------------------------------------------------------------

/// Some character of `s` satisfies `p`.
pub open spec fn some_char(s: Seq<char>, p: spec_fn(char) -> bool) -> bool {
    exists|i: int| 0 <= i < s.len() && #[trigger] p(s[i])
}

/// At least 8 bytes, with an ASCII upper-case letter, an ASCII lower-case
/// letter, an ASCII digit and a character that is not an ASCII letter or digit.
pub open spec fn strict_password_spec(p: Seq<char>) -> bool {
    &&& utf8_len(p) >= 8
    &&& some_char(p, |c: char| is_ascii_upper_spec(c))
    &&& some_char(p, |c: char| is_ascii_lower_spec(c))
    &&& some_char(p, |c: char| is_digit_spec(c))
    &&& some_char(p, |c: char| !is_ascii_alnum_spec(c))
}

/// Strict password check (see `strict_password_spec`).
pub fn validate_password(password: &str) -> (b: bool)
    ensures
        b == strict_password_spec(password@),
{
    if byte_len(password) < 8 {
        return false;
    }
    let cs = chars_of(password);
    let mut upper = false;
    let mut lower = false;
    let mut digit = false;
    let mut special = false;
    let mut i: usize = 0;
    while i < cs.len()
        invariant
            cs@ == password@,
            i <= cs.len(),
            upper == some_char(cs@.subrange(0, i as int), |c: char| is_ascii_upper_spec(c)),
            lower == some_char(cs@.subrange(0, i as int), |c: char| is_ascii_lower_spec(c)),
            digit == some_char(cs@.subrange(0, i as int), |c: char| is_digit_spec(c)),
            special == some_char(cs@.subrange(0, i as int), |c: char| !is_ascii_alnum_spec(c)),
        decreases cs.len() - i,
    {
        let c = cs[i];
        let ghost prev = cs@.subrange(0, i as int);
        let ghost next = cs@.subrange(0, i + 1);
        assert(next =~= prev.push(c));
        upper = upper || is_ascii_upper(c);
        lower = lower || is_ascii_lower(c);
        digit = digit || is_digit(c);
        special = special || !is_ascii_alnum(c);
        proof {
            assert(next[i as int] == c);
            assert forall|p: spec_fn(char) -> bool| some_char(next, p) == (some_char(prev, p) || p(c)) by {
                if some_char(next, p) {
                    let j = choose|j: int| 0 <= j < next.len() && #[trigger] p(next[j]);
                    if j < i {
                        assert(prev[j] == next[j]);
                    }
                }
                if some_char(prev, p) {
                    let j = choose|j: int| 0 <= j < prev.len() && #[trigger] p(prev[j]);
                    assert(next[j] == prev[j]);
                }
            }
        }
        i = i + 1;
    }
    assert(cs@.subrange(0, cs@.len() as int) =~= cs@);
    upper && lower && digit && special
}

/// Exactly 8, 12 or 13 characters, all ASCII digits.
pub open spec fn valid_barcode_spec(s: Seq<char>) -> bool {
    (s.len() == 8 || s.len() == 12 || s.len() == 13) && forall|i: int|
        0 <= i < s.len() ==> is_digit_spec(#[trigger] s[i])
}

/// Every character is an ASCII digit.
pub fn all_digits(v: &Vec<char>) -> (b: bool)
    ensures
        b == forall|i: int| 0 <= i < v@.len() ==> is_digit_spec(#[trigger] v@[i]),
{
    let mut i: usize = 0;
    while i < v.len()
        invariant
            i <= v.len(),
            forall|j: int| 0 <= j < i ==> is_digit_spec(#[trigger] v@[j]),
        decreases v.len() - i,
    {
        if !is_digit(v[i]) {
            return false;
        }
        i = i + 1;
    }
    true
}

/// A barcode is 8 (EAN-8), 12 (UPC-A) or 13 (EAN-13) ASCII digits.
pub fn validate_barcode(code: &str) -> (b: bool)
    ensures
        b == valid_barcode_spec(code@),
{
    let cs = chars_of(code);
    let n = cs.len();
    (n == 8 || n == 12 || n == 13) && all_digits(&cs)
}

/// Outcome of the username rule, with the message of the first check that fails.
pub open spec fn username_outcome(s: Seq<char>) -> Result<(), Seq<char>> {
    if all_whitespace(s) {
        Err("用户名不能为空"@)
    } else if utf8_len(s) < 3 {
        Err("用户名至少需要3个字符"@)
    } else if utf8_len(s) > 30 {
        Err("用户名不能超过30个字符"@)
    } else if !(forall|i: int|
        0 <= i < s.len() ==> unicode_alphanumeric(#[trigger] s[i]) || s[i] == '_') {
        Err("用户名只能包含字母、数字和下划线"@)
    } else if s[0] == '_' || s[s.len() - 1] == '_' {
        Err("用户名不能以下划线开头或结尾"@)
    } else {
        Ok(())
    }
}

/// Username rule: not blank; 3 to 30 bytes; only Unicode letters, numbers
/// and `_`; neither first nor last character is `_`. Each failure has its
/// own message, checked in that order.
pub fn validate_username(username: &str) -> (r: Result<(), String>)
    ensures
        msg_view(r) == username_outcome(username@),
{
    if is_blank(username) {
        return Err("用户名不能为空".to_string());
    }
    let len = byte_len(username);
    if len < 3 {
        return Err("用户名至少需要3个字符".to_string());
    }
    if len > 30 {
        return Err("用户名不能超过30个字符".to_string());
    }
    let cs = chars_of(username);
    let mut i: usize = 0;
    while i < cs.len()
        invariant
            cs@ == username@,
            i <= cs.len(),
            !all_whitespace(username@),
            3 <= utf8_len(username@) <= 30,
            forall|j: int| 0 <= j < i ==> unicode_alphanumeric(#[trigger] cs@[j]) || cs@[j] == '_',
        decreases cs.len() - i,
    {
        if !(is_alphanumeric(cs[i]) || cs[i] == '_') {
            assert(!(unicode_alphanumeric(username@[i as int]) || username@[i as int] == '_'));
            return Err("用户名只能包含字母、数字和下划线".to_string());
        }
        i = i + 1;
    }
    if cs[0] == '_' || cs[cs.len() - 1] == '_' {
        return Err("用户名不能以下划线开头或结尾".to_string());
    }
    Ok(())
}

// ---------------------------------------------------------------------------
// Truncation
// ---------------------------------------------------------------------------

/// What `truncate_string` returns: empty for a zero limit, the whole string
/// when its UTF-8 length fits, else its first `max_len` characters.
pub open spec fn truncate_spec(s: &str, max_len: nat) -> Seq<char> {
    if max_len == 0 {
        Seq::empty()
    } else if utf8_len(s@) <= max_len || s@.len() <= max_len {
        s@
    } else {
        s@.subrange(0, max_len as int)
    }
}

/// Cut `s` down to at most `max_len` characters.
pub fn truncate_string(s: &str, max_len: usize) -> (r: String)
    ensures
        r@ == truncate_spec(s, max_len as nat),
{
    if max_len == 0 {
        return String::new();
    }
    if byte_len(s) <= max_len {
        return owned(s);
    }
    let cs = chars_of(s);
    if cs.len() <= max_len {
        return string_from_chars(&cs);
    }
    let head = sub_chars(&cs, 0, max_len);
    string_from_chars(&head)
}

} // verus!
