//! Account field validation used by the registration forms.
use vstd::prelude::*;
use crate::text::{
    utf8_len,
    all_whitespace, byte_len, chars_of, is_alphabetic, is_alphanumeric, is_blank, is_numeric,
    msg_view, unicode_alphabetic, unicode_alphanumeric, unicode_numeric,
};

verus! {

broadcast use vstd::string::group_string_axioms;

/// Whether `pattern` is a regular expression that `regex::Regex::new` accepts.
pub uninterp spec fn regex_compiles(pattern: Seq<char>) -> bool;

/// Whether `regex::Regex::is_match` finds a match of `pattern` in `text`.
pub uninterp spec fn regex_matches(pattern: Seq<char>, text: Seq<char>) -> bool;

/// Compiles `pattern` with `regex::Regex::new` and, when that succeeds, runs
/// `Regex::is_match` on `text`. Both results depend on the arguments alone.
#[verifier::external_body]
pub(crate) fn regex_is_match(pattern: &str, text: &str) -> (r: Option<bool>)
    ensures
        r is Some <==> regex_compiles(pattern@),
        r matches Some(b) ==> b == regex_matches(pattern@, text@),
{
    match regex::Regex::new(pattern) {
        Ok(re) => Some(re.is_match(text)),
        Err(_) => None,
    }
}

/// The groups of the first match of `pattern` in `text`, as
/// `regex::Regex::captures` gives them (group 0 is the whole match; a group
/// that took no part is `None`); `None` when there is no match.
pub uninterp spec fn regex_capture_groups(pattern: Seq<char>, text: Seq<char>) -> Option<Seq<Option<Seq<char>>>>;

/// The text of each capture group, as plain values.
pub open spec fn group_views(v: Seq<Option<String>>) -> Seq<Option<Seq<char>>> {
    v.map_values(|g: Option<String>| match g {
        Some(s) => Some(s@),
        None => None,
    })
}

/// Compiles `pattern` with `regex::Regex::new` and, when that succeeds, runs
/// `Regex::captures` on `text`, handing back each group's text. Both results
/// depend on the arguments alone.
#[verifier::external_body]
pub(crate) fn regex_captures(pattern: &str, text: &str) -> (r: Option<Option<Vec<Option<String>>>>)
    ensures
        r is Some <==> regex_compiles(pattern@),
        r matches Some(c) ==> match c {
            Some(v) => regex_capture_groups(pattern@, text@) == Some(group_views(v@)),
            None => regex_capture_groups(pattern@, text@) is None,
        },
{
    match regex::Regex::new(pattern) {
        Ok(re) => Some(re.captures(text).map(|c| c.iter().map(|g| g.map(|m| m.as_str().to_string())).collect())),
        Err(_) => None,
    }
}

/// The e-mail pattern: local part of letters, digits and `._%+-`, an `@`,
/// a domain of letters, digits, `.` and `-`, a dot and at least two letters.
pub open spec fn email_pattern() -> Seq<char> {
    "^[a-zA-Z0-9._%+-]+@[a-zA-Z0-9.-]+\\.[a-zA-Z]{2,}$"@
}

/// Whether `email` matches the e-mail pattern.
pub fn validate_email(email: &str) -> (b: bool)
    ensures
        regex_compiles(email_pattern()) ==> b == regex_matches(email_pattern(), email@),
        !regex_compiles(email_pattern()) ==> !b,
{
    match regex_is_match("^[a-zA-Z0-9._%+-]+@[a-zA-Z0-9.-]+\\.[a-zA-Z]{2,}$", email) {
        Some(b) => b,
        None => false,
    }
}

/// Some character of `s` satisfies `p`.
pub open spec fn some_char_where(s: Seq<char>, p: spec_fn(char) -> bool) -> bool {
    exists|i: int| 0 <= i < s.len() && #[trigger] p(s[i])
}

/// Outcome of the basic password rule, with the message of the first failing check.
pub open spec fn password_outcome(p: Seq<char>) -> Result<(), Seq<char>> {
    if utf8_len(p) < 6 {
        Err("Password must be at least 6 characters long"@)
    } else if utf8_len(p) > 128 {
        Err("Password must be less than 128 characters"@)
    } else if !some_char_where(p, |c: char| unicode_alphabetic(c)) {
        Err("Password must contain at least one letter"@)
    } else if !some_char_where(p, |c: char| unicode_numeric(c)) {
        Err("Password must contain at least one number"@)
    } else {
        Ok(())
    }
}

/// Basic password rule: 6 to 128 bytes with at least one letter and one number.
pub fn validate_password(password: &str) -> (r: Result<(), String>)
    ensures
        msg_view(r) == password_outcome(password@),
{
    let n = byte_len(password);
    if n < 6 {
        return Err("Password must be at least 6 characters long".to_string());
    }
    if n > 128 {
        return Err("Password must be less than 128 characters".to_string());
    }
    let cs = chars_of(password);
    let mut letter = false;
    let mut number = false;
    let mut i: usize = 0;
    while i < cs.len()
        invariant
            cs@ == password@,
            i <= cs.len(),
            letter == some_char_where(cs@.subrange(0, i as int), |c: char| unicode_alphabetic(c)),
            number == some_char_where(cs@.subrange(0, i as int), |c: char| unicode_numeric(c)),
        decreases cs.len() - i,
    {
        let c = cs[i];
        let ghost prev = cs@.subrange(0, i as int);
        let ghost next = cs@.subrange(0, i + 1);
        letter = letter || is_alphabetic(c);
        number = number || is_numeric(c);
        proof {
            assert(next[i as int] == c);
            assert forall|p: spec_fn(char) -> bool|
                some_char_where(next, p) == (some_char_where(prev, p) || p(c)) by {
                if some_char_where(next, p) {
                    let j = choose|j: int| 0 <= j < next.len() && #[trigger] p(next[j]);
                    if j < i {
                        assert(prev[j] == next[j]);
                    }
                }
                if some_char_where(prev, p) {
                    let j = choose|j: int| 0 <= j < prev.len() && #[trigger] p(prev[j]);
                    assert(next[j] == prev[j]);
                }
            }
        }
        i = i + 1;
    }
    assert(cs@.subrange(0, cs@.len() as int) =~= cs@);
    if !letter {
        return Err("Password must contain at least one letter".to_string());
    }
    if !number {
        return Err("Password must contain at least one number".to_string());
    }
    Ok(())
}

/// Outcome of the basic username rule, with the message of the first failing check.
pub open spec fn username_outcome(s: Seq<char>) -> Result<(), Seq<char>> {
    if all_whitespace(s) {
        Err("Username cannot be empty"@)
    } else if utf8_len(s) < 3 {
        Err("Username must be at least 3 characters long"@)
    } else if utf8_len(s) > 50 {
        Err("Username must be less than 50 characters"@)
    } else if !(forall|i: int|
        0 <= i < s.len() ==> unicode_alphanumeric(#[trigger] s[i]) || s[i] == '_') {
        Err("Username can only contain letters, numbers, and underscores"@)
    } else {
        Ok(())
    }
}

/// Basic username rule: not blank, 3 to 50 bytes, letters, numbers and `_` only.
pub fn validate_username(username: &str) -> (r: Result<(), String>)
    ensures
        msg_view(r) == username_outcome(username@),
{
    if is_blank(username) {
        return Err("Username cannot be empty".to_string());
    }
    let n = byte_len(username);
    if n < 3 {
        return Err("Username must be at least 3 characters long".to_string());
    }
    if n > 50 {
        return Err("Username must be less than 50 characters".to_string());
    }
    let cs = chars_of(username);
    let mut i: usize = 0;
    while i < cs.len()
        invariant
            cs@ == username@,
            i <= cs.len(),
            !all_whitespace(username@),
            3 <= utf8_len(username@) <= 50,
            forall|j: int| 0 <= j < i ==> unicode_alphanumeric(#[trigger] cs@[j]) || cs@[j] == '_',
        decreases cs.len() - i,
    {
        if !(is_alphanumeric(cs[i]) || cs[i] == '_') {
            assert(!(unicode_alphanumeric(username@[i as int]) || username@[i as int] == '_'));
            return Err("Username can only contain letters, numbers, and underscores".to_string());
        }
        i = i + 1;
    }
    Ok(())
}

} // verus!
