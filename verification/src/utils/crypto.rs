//! Password hashing (bcrypt), random identifiers (UUID v4), a byte hash,
//! and the password-strength rule.
use sha2::Digest;
use vstd::prelude::*;
use crate::text::{
    utf8_len,
    byte_len, chars_of, is_alphanumeric, is_lowercase, is_numeric, is_uppercase, msg_view,
    string_from_chars, unicode_alphanumeric, unicode_lowercase, unicode_numeric, unicode_uppercase,
};

verus! {

broadcast use vstd::string::group_string_axioms;

/// The error type of the `bcrypt` crate.
#[verifier::external_type_specification]
#[verifier::external_body]
pub struct ExBcryptError(bcrypt::BcryptError);

/// The cost `bcrypt::DEFAULT_COST` stands for.
pub const DEFAULT_COST: u32 = 12;

/// Whether `bcrypt::verify` accepts `hash` as a well-formed bcrypt hash
/// (60 ASCII bytes, a `$2?$` prefix, a cost in 4..=31, base-64 salt and digest).
pub uninterp spec fn bcrypt_hash_well_formed(hash: Seq<char>) -> bool;

/// Whether `bcrypt::verify(password, hash)` reports a match.
pub uninterp spec fn bcrypt_matches(password: Seq<char>, hash: Seq<char>) -> bool;

/// Calls `bcrypt::hash`. The salt is random, so nothing fixes the hash
/// itself; the contract claims what the crate's source shows of every
/// outcome: a cost outside 4..=31 is refused, and a produced hash is a
/// 60-character `$2b$` hash that `bcrypt::verify` accepts for this password.
#[verifier::external_body]
fn bcrypt_hash(password: &str, cost: u32) -> (r: Result<String, bcrypt::BcryptError>)
    ensures
        !(4 <= cost <= 31) ==> r is Err,
        r matches Ok(h) ==> h@.len() == 60 && h@.subrange(0, 4) == "$2b$"@
            && bcrypt_hash_well_formed(h@) && bcrypt_matches(password@, h@),
{
    bcrypt::hash(password, cost)
}

/// Calls `bcrypt::verify`. It fails exactly on a malformed hash, and
/// otherwise reports whether the password matches.
#[verifier::external_body]
fn bcrypt_verify(password: &str, hash: &str) -> (r: Result<bool, bcrypt::BcryptError>)
    ensures
        r is Ok <==> bcrypt_hash_well_formed(hash@),
        r matches Ok(b) ==> b == bcrypt_matches(password@, hash@),
{
    bcrypt::verify(password, hash)
}

/// Calls the `Display` of a `bcrypt::BcryptError`. Nothing is claimed of the text.
#[verifier::external_body]
fn bcrypt_error_text(e: &bcrypt::BcryptError) -> String {
    e.to_string()
}

/// Failure of a hashing operation, with the hashing library's message.
#[derive(Debug)]
pub enum CryptoError {
    Hashing(String),
}

/// Hash a password with bcrypt at the default cost.
pub fn hash_password(password: &str) -> (r: Result<String, CryptoError>)
    ensures
        r matches Ok(h) ==> h@.len() == 60 && h@.subrange(0, 4) == "$2b$"@
            && bcrypt_hash_well_formed(h@) && bcrypt_matches(password@, h@),
{
    hash_password_with_cost(password, DEFAULT_COST)
}

/// Hash a password with bcrypt at the given cost; a cost outside 4..=31 fails.
pub fn hash_password_with_cost(password: &str, cost: u32) -> (r: Result<String, CryptoError>)
    ensures
        !(4 <= cost <= 31) ==> r is Err,
        r matches Ok(h) ==> h@.len() == 60 && h@.subrange(0, 4) == "$2b$"@
            && bcrypt_hash_well_formed(h@) && bcrypt_matches(password@, h@),
{
    match bcrypt_hash(password, cost) {
        Ok(h) => Ok(h),
        Err(e) => Err(CryptoError::Hashing(bcrypt_error_text(&e))),
    }
}

/// Check a password against a bcrypt hash; a malformed hash is an error.
pub fn verify_password(password: &str, hash: &str) -> (r: Result<bool, CryptoError>)
    ensures
        r is Ok <==> bcrypt_hash_well_formed(hash@),
        r matches Ok(b) ==> b == bcrypt_matches(password@, hash@),
{
    match bcrypt_verify(password, hash) {
        Ok(b) => Ok(b),
        Err(e) => Err(CryptoError::Hashing(bcrypt_error_text(&e))),
    }
}

/// Lower-case hexadecimal digit.
pub open spec fn is_lower_hex(c: char) -> bool {
    ('0' <= c && c <= '9') || ('a' <= c && c <= 'f')
}

/// The text of a UUID: 36 characters, `-` at positions 8, 13, 18 and 23,
/// lower-case hexadecimal digits elsewhere.
pub open spec fn uuid_text(s: Seq<char>) -> bool {
    s.len() == 36 && forall|i: int|
        0 <= i < 36 ==> if i == 8 || i == 13 || i == 18 || i == 23 {
            #[trigger] s[i] == '-'
        } else {
            is_lower_hex(s[i])
        }
}

/// Calls `uuid::Uuid::new_v4().to_string()`. The value is random; the
/// crate's `Display` always writes the hyphenated lower-case form.
#[verifier::external_body]
pub fn new_uuid_string() -> (r: String)
    ensures
        uuid_text(r@),
{
    uuid::Uuid::new_v4().to_string()
}

/// A random salt: a fresh UUID in text form.
pub fn generate_salt() -> (r: String)
    ensures
        uuid_text(r@),
{
    new_uuid_string()
}

/// A random password of `length` lower-case hexadecimal characters, drawn
/// from fresh UUIDs with their hyphens removed.
pub fn generate_secure_password(length: usize) -> (r: String)
    ensures
        r@.len() == length,
        forall|i: int| 0 <= i < r@.len() ==> is_lower_hex(#[trigger] r@[i]),
{
    let mut out: Vec<char> = Vec::new();
    while out.len() < length
        invariant
            out@.len() <= length,
            forall|i: int| 0 <= i < out@.len() ==> is_lower_hex(#[trigger] out@[i]),
        decreases length - out.len(),
    {
        let u = new_uuid_string();
        let cs = chars_of(u.as_str());
        let mut k: usize = 0;
        let ghost before = out@.len();
        while k < cs.len() && out.len() < length
            invariant
                cs@ == u@,
                uuid_text(u@),
                k <= cs.len(),
                before <= out@.len() <= length,
                before < length,
                k >= 1 ==> (out@.len() > before || out@.len() == length),
                forall|i: int| 0 <= i < out@.len() ==> is_lower_hex(#[trigger] out@[i]),
            decreases cs.len() - k,
        {
            let c = cs[k];
            if c != '-' {
                assert(u@[k as int] == c);
                assert(is_lower_hex(u@[k as int]));
                out.push(c);
            } else {
                assert(u@[k as int] == c);
                assert(k != 0);
            }
            k = k + 1;
        }
    }
    string_from_chars(&out)
}

/// The SHA-256 digest of some bytes, as `sha2::Sha256::digest` computes it.
pub uninterp spec fn sha256_of(data: Seq<u8>) -> Seq<u8>;

/// Calls `sha2::Sha256::digest` on the bytes: their SHA-256 digest, which
/// depends on the bytes alone and is always 32 bytes long.
#[verifier::external_body]
fn sha256_digest(data: &[u8]) -> (r: Vec<u8>)
    ensures
        r@ == sha256_of(data@),
        r@.len() == 32,
{
    sha2::Sha256::digest(data).to_vec()
}

/// Bytes written as lower-case hexadecimal, two digits per byte.
pub open spec fn lower_hex(b: Seq<u8>) -> Seq<char>
    decreases b.len(),
{
    if b.len() == 0 {
        Seq::empty()
    } else {
        lower_hex(b.drop_last()) + seq![hex_digit(b.last() as int / 16), hex_digit(b.last() as int % 16)]
    }
}

/// Lower-case hexadecimal spelling of `n`, without leading zeros.
pub open spec fn hex_text(n: nat) -> Seq<char>
    decreases n,
{
    if n < 16 {
        seq![hex_digit(n as int)]
    } else {
        hex_text(n / 16).push(hex_digit((n % 16) as int))
    }
}

/// The lower-case hexadecimal digit for `d` in `0..16`.
pub open spec fn hex_digit(d: int) -> char {
    if d < 10 {
        crate::utils::numbers::digit_char(d)
    } else if d == 10 {
        'a'
    } else if d == 11 {
        'b'
    } else if d == 12 {
        'c'
    } else if d == 13 {
        'd'
    } else if d == 14 {
        'e'
    } else {
        'f'
    }
}

/// One hexadecimal digit.
fn hex_digit_char(d: u64) -> (c: char)
    requires
        d < 16,
    ensures
        c == hex_digit(d as int),
{
    if d < 10 {
        crate::utils::numbers::digit_to_char(d as u32)
    } else if d == 10 {
        'a'
    } else if d == 11 {
        'b'
    } else if d == 12 {
        'c'
    } else if d == 13 {
        'd'
    } else if d == 14 {
        'e'
    } else {
        'f'
    }
}

/// `format!("{:x}", n)`.
pub fn u64_hex(n: u64) -> (r: Vec<char>)
    ensures
        r@ == hex_text(n as nat),
    decreases n,
{
    if n < 16 {
        let mut r = Vec::new();
        r.push(hex_digit_char(n));
        assert(r@ =~= seq![hex_digit(n as int)]);
        r
    } else {
        let mut r = u64_hex(n / 16);
        r.push(hex_digit_char(n % 16));
        r
    }
}

/// The SHA-256 digest of some bytes, written as 64 lower-case hexadecimal
/// digits.
pub fn hash_data_sha256(data: &[u8]) -> (r: String)
    ensures
        r@ == lower_hex(sha256_of(data@)),
        r@.len() == 64,
{
    let d = sha256_digest(data);
    let mut out: Vec<char> = Vec::new();
    let mut i: usize = 0;
    while i < d.len()
        invariant
            i <= d@.len(),
            out@ == lower_hex(d@.subrange(0, i as int)),
            out@.len() == 2 * i,
        decreases d.len() - i,
    {
        assert(d@.subrange(0, i + 1).drop_last() =~= d@.subrange(0, i as int));
        let b = d[i];
        out.push(hex_digit_char((b / 16) as u64));
        out.push(hex_digit_char((b % 16) as u64));
        i = i + 1;
    }
    assert(d@.subrange(0, d@.len() as int) =~= d@);
    string_from_chars(&out)
}

/// Some character of `s` satisfies `p`.
pub open spec fn any_char(s: Seq<char>, p: spec_fn(char) -> bool) -> bool {
    exists|i: int| 0 <= i < s.len() && #[trigger] p(s[i])
}

/// Outcome of the strength rule, with the message of the first check that fails.
pub open spec fn password_strength_outcome(p: Seq<char>) -> Result<(), Seq<char>> {
    if utf8_len(p) < 8 {
        Err("Password must be at least 8 characters long"@)
    } else if !any_char(p, |c: char| unicode_uppercase(c)) {
        Err("Password must contain at least one uppercase letter"@)
    } else if !any_char(p, |c: char| unicode_lowercase(c)) {
        Err("Password must contain at least one lowercase letter"@)
    } else if !any_char(p, |c: char| unicode_numeric(c)) {
        Err("Password must contain at least one digit"@)
    } else if !any_char(p, |c: char| !unicode_alphanumeric(c)) {
        Err("Password must contain at least one special character"@)
    } else {
        Ok(())
    }
}

/// Strength rule: at least 8 bytes, with an upper-case letter, a lower-case
/// letter, a number and a character that is neither letter nor number.
pub fn validate_password_strength(password: &str) -> (r: Result<(), String>)
    ensures
        msg_view(r) == password_strength_outcome(password@),
{
    if byte_len(password) < 8 {
        return Err("Password must be at least 8 characters long".to_string());
    }
    let cs = chars_of(password);
    let mut upper = false;
    let mut lower = false;
    let mut digit = false;
    let mut special = false;
    let mut i: usize = 0;
    while i < cs.len()
        invariant
            cs@ == password@,
            i <= cs.len(),
            upper == any_char(cs@.subrange(0, i as int), |c: char| unicode_uppercase(c)),
            lower == any_char(cs@.subrange(0, i as int), |c: char| unicode_lowercase(c)),
            digit == any_char(cs@.subrange(0, i as int), |c: char| unicode_numeric(c)),
            special == any_char(cs@.subrange(0, i as int), |c: char| !unicode_alphanumeric(c)),
        decreases cs.len() - i,
    {
        let c = cs[i];
        let ghost prev = cs@.subrange(0, i as int);
        let ghost next = cs@.subrange(0, i + 1);
        upper = upper || is_uppercase(c);
        lower = lower || is_lowercase(c);
        digit = digit || is_numeric(c);
        special = special || !is_alphanumeric(c);
        proof {
            assert(next[i as int] == c);
            assert forall|p: spec_fn(char) -> bool| any_char(next, p) == (any_char(prev, p) || p(c)) by {
                if any_char(next, p) {
                    let j = choose|j: int| 0 <= j < next.len() && #[trigger] p(next[j]);
                    if j < i {
                        assert(prev[j] == next[j]);
                    }
                }
                if any_char(prev, p) {
                    let j = choose|j: int| 0 <= j < prev.len() && #[trigger] p(prev[j]);
                    assert(next[j] == prev[j]);
                }
            }
        }
        i = i + 1;
    }
    assert(cs@.subrange(0, cs@.len() as int) =~= cs@);
    if !upper {
        return Err("Password must contain at least one uppercase letter".to_string());
    }
    if !lower {
        return Err("Password must contain at least one lowercase letter".to_string());
    }
    if !digit {
        return Err("Password must contain at least one digit".to_string());
    }
    if !special {
        return Err("Password must contain at least one special character".to_string());
    }
    Ok(())
}

} // verus!
