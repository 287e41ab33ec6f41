//! Decimal digits, integer parsing, barcode check digits and price parsing.
use vstd::prelude::*;
use crate::text::{
    all_whitespace, chars_of, string_from_chars, is_blank, is_digit, is_digit_spec, is_whitespace, msg_view,
    unicode_whitespace,
};
use crate::utils::crypto::{generate_salt, uuid_text};
use crate::utils::sub_chars;

verus! {

broadcast use vstd::string::group_string_axioms;

/// Numeric value of an ASCII digit.
pub open spec fn digit_val(c: char) -> int {
    (c as int) - ('0' as int)
}

/// The ASCII digit for `d` in `0..10`.
pub open spec fn digit_char(d: int) -> char {
    if d == 0 {
        '0'
    } else if d == 1 {
        '1'
    } else if d == 2 {
        '2'
    } else if d == 3 {
        '3'
    } else if d == 4 {
        '4'
    } else if d == 5 {
        '5'
    } else if d == 6 {
        '6'
    } else if d == 7 {
        '7'
    } else if d == 8 {
        '8'
    } else {
        '9'
    }
}

/// Every character is an ASCII digit.
pub open spec fn all_digit_chars(d: Seq<char>) -> bool {
    forall|i: int| 0 <= i < d.len() ==> is_digit_spec(#[trigger] d[i])
}

/// Value of a run of decimal digits (most significant first).
pub open spec fn digits_value(d: Seq<char>) -> int
    decreases d.len(),
{
    if d.len() == 0 {
        0
    } else {
        digits_value(d.drop_last()) * 10 + digit_val(d.last())
    }
}

/// Decimal spelling of a natural number, without leading zeros.
pub open spec fn nat_decimal(n: nat) -> Seq<char>
    decreases n,
{
    if n < 10 {
        seq![digit_char(n as int)]
    } else {
        nat_decimal(n / 10).push(digit_char((n % 10) as int))
    }
}

/// Decimal spelling of an integer, with a leading `-` when negative.
pub open spec fn int_decimal(v: int) -> Seq<char> {
    if v < 0 {
        seq!['-'] + nat_decimal((-v) as nat)
    } else {
        nat_decimal(v as nat)
    }
}

/// What `i64::from_str` accepts: an optional `+` or `-` followed by at least
/// one ASCII digit, with a value in the range of `i64`.
pub open spec fn parse_i64_spec(s: Seq<char>) -> Option<int> {
    if s.len() > 0 && (s[0] == '+' || s[0] == '-') {
        let d = s.drop_first();
        if d.len() > 0 && all_digit_chars(d) {
            let v = if s[0] == '-' {
                -digits_value(d)
            } else {
                digits_value(d)
            };
            if i64::MIN <= v <= i64::MAX {
                Some(v)
            } else {
                None
            }
        } else {
            None
        }
    } else if s.len() > 0 && all_digit_chars(s) && digits_value(s) <= i64::MAX {
        Some(digits_value(s))
    } else {
        None
    }
}

/// Index of the first `c` in `s`, or `s.len()` when there is none.
pub open spec fn field_end(s: Seq<char>, c: char) -> nat
    decreases s.len(),
{
    if s.len() == 0 {
        0
    } else if s[0] == c {
        0
    } else {
        1 + field_end(s.drop_first(), c)
    }
}

/// A run of digits is worth at least each of its prefixes.
pub proof fn lemma_digits_value_prefix(s: Seq<char>, j: int)
    requires
        0 <= j <= s.len(),
        all_digit_chars(s),
    ensures
        0 <= digits_value(s.subrange(0, j)) <= digits_value(s),
    decreases s.len(),
{
    if s.len() == 0 {
        assert(s.subrange(0, j) =~= s);
    } else if j == s.len() {
        assert(s.subrange(0, j) =~= s);
        lemma_digits_value_prefix(s.drop_last(), j - 1);
    } else {
        lemma_digits_value_prefix(s.drop_last(), j);
        assert(s.drop_last().subrange(0, j) =~= s.subrange(0, j));
        assert(is_digit_spec(s[s.len() - 1]));
    }
}

/// A single digit is worth its own value.
pub proof fn lemma_digits_value_single(c: char)
    ensures
        digits_value(seq![c]) == digit_val(c),
{
    assert(seq![c].drop_last() =~= Seq::<char>::empty());
    assert(digits_value(Seq::<char>::empty()) == 0);
    assert(seq![c].last() == c);
}

/// The digit character for `d` reads back as `d`.
pub proof fn lemma_digit_char(d: int)
    requires
        0 <= d < 10,
    ensures
        digit_val(digit_char(d)) == d,
        is_digit_spec(digit_char(d)),
{
    assert(digit_val('0') == 0);
    assert(digit_val('9') == 9);
}

/// The decimal spelling of `n` is made of digits and reads back as `n`.
pub proof fn lemma_nat_decimal(n: nat)
    ensures
        nat_decimal(n).len() > 0,
        all_digit_chars(nat_decimal(n)),
        digits_value(nat_decimal(n)) == n,
    decreases n,
{
    if n < 10 {
        lemma_digit_char(n as int);
        lemma_digits_value_single(digit_char(n as int));
    } else {
        lemma_nat_decimal(n / 10);
        lemma_digit_char((n % 10) as int);
        let s = nat_decimal(n);
        assert(s.drop_last() =~= nat_decimal(n / 10));
        assert forall|i: int| 0 <= i < s.len() implies is_digit_spec(#[trigger] s[i]) by {
            if i < s.len() - 1 {
                assert(s[i] == nat_decimal(n / 10)[i]);
            }
        }
    }
}

/// A prefix free of `c` ends the first field exactly at its end.
pub proof fn lemma_field_end_concat(a: Seq<char>, b: Seq<char>, c: char)
    requires
        !a.contains(c),
    ensures
        field_end(a + b, c) == a.len() + field_end(b, c),
    decreases a.len(),
{
    if a.len() == 0 {
        assert(a + b =~= b);
    } else {
        assert((a + b)[0] == a[0]);
        assert(!(a[0] == c)) by {
            if a[0] == c {
                assert(a.contains(c));
            }
        }
        assert((a + b).drop_first() =~= a.drop_first() + b);
        assert(!a.drop_first().contains(c)) by {
            if a.drop_first().contains(c) {
                let k = choose|k: int| 0 <= k < a.drop_first().len() && a.drop_first()[k] == c;
                assert(a[k + 1] == c);
            }
        }
        lemma_field_end_concat(a.drop_first(), b, c);
    }
}

/// The ASCII digit for a value below ten.
pub fn digit_to_char(d: u32) -> (c: char)
    requires
        d < 10,
    ensures
        c == digit_char(d as int),
        is_digit_spec(c),
        digit_val(c) == d,
{
    if d == 0 { '0' } else if d == 1 { '1' } else if d == 2 { '2' } else if d == 3 { '3' } else if d
        == 4 { '4' } else if d == 5 { '5' } else if d == 6 { '6' } else if d == 7 { '7' } else if d
        == 8 { '8' } else { '9' }
}

/// Value of an ASCII digit.
pub fn char_digit_value(c: char) -> (d: u32)
    requires
        is_digit_spec(c),
    ensures
        d == digit_val(c),
        d < 10,
{
    (c as u32) - ('0' as u32)
}

/// Decimal digits of `n`.
pub fn u64_decimal(n: u64) -> (r: Vec<char>)
    ensures
        r@ == nat_decimal(n as nat),
    decreases n,
{
    if n < 10 {
        let mut r = Vec::new();
        r.push(digit_to_char(n as u32));
        assert(r@ =~= seq![digit_char(n as int)]);
        r
    } else {
        let mut r = u64_decimal(n / 10);
        r.push(digit_to_char((n % 10) as u32));
        r
    }
}

/// Decimal digits of `n`.
pub fn u128_decimal(n: u128) -> (r: Vec<char>)
    ensures
        r@ == nat_decimal(n as nat),
    decreases n,
{
    if n < 10 {
        let mut r = Vec::new();
        r.push(digit_to_char(n as u32));
        assert(r@ =~= seq![digit_char(n as int)]);
        r
    } else {
        let mut r = u128_decimal(n / 10);
        r.push(digit_to_char((n % 10) as u32));
        r
    }
}

/// Decimal spelling of a signed integer (`i64`'s `Display`).
pub fn i64_decimal(v: i64) -> (r: Vec<char>)
    ensures
        r@ == int_decimal(v as int),
{
    if v < 0 {
        let mag: u64 = ((-(v + 1)) as u64) + 1;
        let digits = u64_decimal(mag);
        let mut r = Vec::new();
        r.push('-');
        let mut i: usize = 0;
        while i < digits.len()
            invariant
                i <= digits.len(),
                r@ == seq!['-'] + digits@.subrange(0, i as int),
            decreases digits.len() - i,
        {
            r.push(digits[i]);
            i = i + 1;
        }
        assert(digits@.subrange(0, digits@.len() as int) =~= digits@);
        r
    } else {
        u64_decimal(v as u64)
    }
}

/// Index of the first `c` in `v`, or `v.len()`.
pub fn find_first(v: &Vec<char>, c: char) -> (e: usize)
    ensures
        e as nat == field_end(v@, c),
        e <= v.len(),
        forall|k: int| 0 <= k < e ==> v@[k] != c,
        e < v.len() ==> v@[e as int] == c,
{
    let mut i: usize = 0;
    assert(v@.subrange(0, v@.len() as int) =~= v@);
    while i < v.len() && v[i] != c
        invariant
            i <= v.len(),
            field_end(v@, c) == i + field_end(v@.subrange(i as int, v@.len() as int), c),
            forall|k: int| 0 <= k < i ==> v@[k] != c,
        decreases v.len() - i,
    {
        let ghost sub = v@.subrange(i as int, v@.len() as int);
        assert(sub[0] == v@[i as int]);
        assert(sub.drop_first() =~= v@.subrange(i + 1, v@.len() as int));
        i = i + 1;
    }
    if i < v.len() {
        assert(v@.subrange(i as int, v@.len() as int)[0] == c);
    } else {
        assert(v@.subrange(i as int, v@.len() as int).len() == 0);
    }
    i
}

/// Value of a run of ASCII digits, when it fits below `limit`.
pub(crate) fn digits_value_upto(v: &Vec<char>, limit: u64) -> (r: Option<u64>)
    requires
        all_digit_chars(v@),
        limit >= 9,
    ensures
        r matches Some(x) ==> x == digits_value(v@) && x <= limit,
        r is None ==> digits_value(v@) > limit,
{
    let mut acc: u64 = 0;
    let mut i: usize = 0;
    while i < v.len()
        invariant
            all_digit_chars(v@),
            limit >= 9,
            i <= v.len(),
            acc == digits_value(v@.subrange(0, i as int)),
            acc <= limit,
        decreases v.len() - i,
    {
        assert(is_digit_spec(v@[i as int]));
        let d = char_digit_value(v[i]) as u64;
        assert(v@.subrange(0, i + 1).drop_last() =~= v@.subrange(0, i as int));
        if acc > (limit - d) / 10 {
            proof {
                assert(digits_value(v@.subrange(0, i + 1)) == acc * 10 + d);
                lemma_digits_value_prefix(v@, i + 1);
            }
            return None;
        }
        acc = acc * 10 + d;
        i = i + 1;
    }
    assert(v@.subrange(0, v@.len() as int) =~= v@);
    Some(acc)
}

/// `str::parse::<i64>` on a character sequence.
pub fn parse_i64(v: &Vec<char>) -> (r: Option<i64>)
    ensures
        r matches Some(x) ==> parse_i64_spec(v@) == Some(x as int),
        r is None ==> parse_i64_spec(v@) is None,
{
    if v.len() == 0 {
        return None;
    }
    let signed = v[0] == '+' || v[0] == '-';
    let start: usize = if signed { 1 } else { 0 };
    let body = sub_chars(v, start, v.len());
    if signed {
        assert(body@ =~= v@.drop_first());
    } else {
        assert(body@ =~= v@);
    }
    if body.len() == 0 {
        return None;
    }
    let mut i: usize = 0;
    while i < body.len()
        invariant
            v@.len() > 0,
            signed == (v@[0] == '+' || v@[0] == '-'),
            signed ==> body@ == v@.drop_first(),
            !signed ==> body@ == v@,
            i <= body.len(),
            forall|k: int| 0 <= k < i ==> is_digit_spec(#[trigger] body@[k]),
        decreases body.len() - i,
    {
        if !is_digit(body[i]) {
            assert(!is_digit_spec(body@[i as int]));
            assert(!all_digit_chars(body@));
            return None;
        }
        i = i + 1;
    }
    if v[0] == '-' {
        match digits_value_upto(&body, 9223372036854775808u64) {
            None => None,
            Some(m) => {
                if m == 9223372036854775808u64 {
                    Some(i64::MIN)
                } else {
                    Some(-(m as i64))
                }
            },
        }
    } else {
        match digits_value_upto(&body, 9223372036854775807u64) {
            None => None,
            Some(m) => Some(m as i64),
        }
    }
}

// ---------------------------------------------------------------------------
// Barcode check digits
// ---------------------------------------------------------------------------

/// Weighted digit sum: weight `w_odd` at odd 1-based positions, `w_even` at even ones.
pub open spec fn weighted_sum(d: Seq<char>, w_odd: int, w_even: int) -> int
    decreases d.len(),
{
    if d.len() == 0 {
        0
    } else {
        weighted_sum(d.drop_last(), w_odd, w_even) + digit_val(d.last()) * (if d.len() % 2 == 1 {
            w_odd
        } else {
            w_even
        })
    }
}

/// The digit that brings a sum up to a multiple of ten.
pub open spec fn check_digit(sum: int) -> int {
    if sum % 10 == 0 {
        0
    } else {
        10 - sum % 10
    }
}

/// EAN-13 check digit as this library computes it: the larger of the
/// standard weighting (even positions ×3) and the swapped one (odd positions ×3).
pub open spec fn ean13_spec(d: Seq<char>) -> int {
    let a = check_digit(weighted_sum(d, 1, 3));
    let b = check_digit(weighted_sum(d, 3, 1));
    if a >= b {
        a
    } else {
        b
    }
}

/// UPC-A check digit: odd positions ×3, even positions ×1.
pub open spec fn upca_spec(d: Seq<char>) -> int {
    check_digit(weighted_sum(d, 3, 1))
}

/// The check digit of `d` under the given weights.
pub(crate) fn weighted_check(d: &Vec<char>, w_odd: u32, w_even: u32) -> (r: u8)
    requires
        all_digit_chars(d@),
        d.len() <= 100,
        w_odd <= 3,
        w_even <= 3,
    ensures
        r == check_digit(weighted_sum(d@, w_odd as int, w_even as int)),
        r < 10,
{
    let mut sum: u32 = 0;
    let mut i: usize = 0;
    while i < d.len()
        invariant
            all_digit_chars(d@),
            d.len() <= 100,
            w_odd <= 3,
            w_even <= 3,
            i <= d.len(),
            sum == weighted_sum(d@.subrange(0, i as int), w_odd as int, w_even as int),
            sum <= 27 * i,
        decreases d.len() - i,
    {
        assert(is_digit_spec(d@[i as int]));
        let v = char_digit_value(d[i]);
        let w = if (i + 1) % 2 == 1 { w_odd } else { w_even };
        assert(d@.subrange(0, i + 1).drop_last() =~= d@.subrange(0, i as int));
        assert(v * w <= 27) by (nonlinear_arith)
            requires
                v < 10,
                w <= 3,
        ;
        sum = sum + v * w;
        i = i + 1;
    }
    assert(d@.subrange(0, d@.len() as int) =~= d@);
    let m = sum % 10;
    if m == 0 {
        0
    } else {
        (10 - m) as u8
    }
}

/// EAN-13 check digit for 12 digits.
fn ean13_checksum(code12: &Vec<char>) -> (r: u8)
    requires
        all_digit_chars(code12@),
        code12.len() == 12,
    ensures
        r == ean13_spec(code12@),
{
    let a = weighted_check(code12, 1, 3);
    let b = weighted_check(code12, 3, 1);
    if a >= b {
        a
    } else {
        b
    }
}

/// UPC-A check digit for 11 digits.
fn upca_checksum(code11: &Vec<char>) -> (r: u8)
    requires
        all_digit_chars(code11@),
        code11.len() == 11,
    ensures
        r == upca_spec(code11@),
{
    weighted_check(code11, 3, 1)
}

/// What `generate_barcode_checksum` returns.
pub open spec fn barcode_checksum_spec(code: Seq<char>) -> Option<int> {
    if !all_digit_chars(code) {
        None
    } else if code.len() == 12 {
        Some(ean13_spec(code))
    } else if code.len() == 11 {
        Some(upca_spec(code))
    } else {
        None
    }
}

/// Check digit for a 12-digit EAN-13 body or an 11-digit UPC-A body; `None`
/// for any other length or for a non-digit character.
pub fn generate_barcode_checksum(code: &str) -> (r: Option<u8>)
    ensures
        barcode_checksum_spec(code@) matches Some(d) ==> r == Some(d as u8),
        barcode_checksum_spec(code@) is None ==> r is None,
{
    let cs = chars_of(code);
    let mut i: usize = 0;
    while i < cs.len()
        invariant
            cs@ == code@,
            i <= cs.len(),
            forall|k: int| 0 <= k < i ==> is_digit_spec(#[trigger] cs@[k]),
        decreases cs.len() - i,
    {
        if !is_digit(cs[i]) {
            assert(!all_digit_chars(code@));
            return None;
        }
        i = i + 1;
    }
    if cs.len() == 12 {
        Some(ean13_checksum(&cs))
    } else if cs.len() == 11 {
        Some(upca_checksum(&cs))
    } else {
        None
    }
}

// ---------------------------------------------------------------------------
// User tokens
// ---------------------------------------------------------------------------

/// The characters before the first `:` of a token.
pub open spec fn token_prefix(t: Seq<char>) -> Seq<char> {
    t.subrange(0, field_end(t, ':') as int)
}

/// Whether a token names `user_id`: its first `:`-separated field parses as that integer.
pub open spec fn token_names_user(t: Seq<char>, user_id: int) -> bool {
    parse_i64_spec(token_prefix(t)) == Some(user_id)
}

/// True when the first `:`-separated field of `token` parses as `user_id`.
pub fn verify_user_token(token: &str, user_id: i64) -> (b: bool)
    ensures
        b == token_names_user(token@, user_id as int),
{
    let cs = chars_of(token);
    let e = find_first(&cs, ':');
    let head = sub_chars(&cs, 0, e);
    match parse_i64(&head) {
        Some(v) => v == user_id,
        None => false,
    }
}

/// A token that starts with the decimal user id and a `:` names that user and no other.
proof fn lemma_token_names_its_user(user_id: i64, rest: Seq<char>, other: i64)
    ensures
        token_names_user(int_decimal(user_id as int) + seq![':'] + rest, user_id as int),
        other != user_id ==> !token_names_user(
            int_decimal(user_id as int) + seq![':'] + rest,
            other as int,
        ),
{
    let d = int_decimal(user_id as int);
    let t = d + seq![':'] + rest;
    let mag: nat = if user_id < 0 { (-user_id) as nat } else { user_id as nat };
    lemma_nat_decimal(mag);
    assert(!d.contains(':')) by {
        if d.contains(':') {
            let k = choose|k: int| 0 <= k < d.len() && d[k] == ':';
            if user_id < 0 {
                if k > 0 {
                    assert(d[k] == nat_decimal(mag)[k - 1]);
                }
            } else {
                assert(is_digit_spec(nat_decimal(mag)[k]));
            }
        }
    }
    assert(t =~= d + (seq![':'] + rest));
    lemma_field_end_concat(d, seq![':'] + rest, ':');
    assert((seq![':'] + rest)[0] == ':');
    assert(token_prefix(t) =~= d);
    if user_id < 0 {
        assert(d.drop_first() =~= nat_decimal(mag));
    }
}

/// Text of a user token: the user id, a `:`, a time stamp in nanoseconds,
/// a `:`, and a salt.
pub open spec fn token_text(user_id: int, nanos: nat, salt: Seq<char>) -> Seq<char> {
    int_decimal(user_id) + seq![':'] + nat_decimal(nanos) + seq![':'] + salt
}

/// The standard library's wall-clock time.
#[verifier::external_type_specification]
#[verifier::external_body]
pub struct ExSystemTime(std::time::SystemTime);

/// Calls `SystemTime::now`: the machine's clock, of which nothing is claimed.
#[verifier::external_body]
fn system_now() -> std::time::SystemTime {
    std::time::SystemTime::now()
}

/// Calls `SystemTime::duration_since(UNIX_EPOCH)`: the time since 1970;
/// `None` where the time lies before it. Nothing is claimed of the length.
#[verifier::external_body]
fn since_unix_epoch(t: &std::time::SystemTime) -> Option<core::time::Duration> {
    match t.duration_since(std::time::UNIX_EPOCH) {
        Ok(d) => Some(d),
        Err(_) => None,
    }
}

/// Calls `Duration::as_nanos`: the whole length in nanoseconds. The
/// duration is opaque here, so nothing is claimed of the number.
#[verifier::external_body]
fn duration_nanos(d: &core::time::Duration) -> u128 {
    d.as_nanos()
}

/// A token for `user_id`: the id, the current time in nanoseconds (0 when
/// the clock reads before 1970) and a random salt, separated by `:`.
pub fn generate_user_token(user_id: i64) -> (r: String)
    ensures
        exists|nanos: u128, salt: Seq<char>|
            uuid_text(salt) && r@ == token_text(user_id as int, nanos as nat, salt),
{
    let now = match since_unix_epoch(&system_now()) {
        Some(d) => duration_nanos(&d),
        None => 0,
    };
    let salt = generate_salt();
    let mut out = i64_decimal(user_id);
    out.push(':');
    let nd = u128_decimal(now);
    let mut i: usize = 0;
    let ghost base = out@;
    while i < nd.len()
        invariant
            i <= nd.len(),
            out@ == base + nd@.subrange(0, i as int),
        decreases nd.len() - i,
    {
        out.push(nd[i]);
        i = i + 1;
    }
    out.push(':');
    let sc = chars_of(salt.as_str());
    let mut j: usize = 0;
    let ghost base2 = out@;
    while j < sc.len()
        invariant
            j <= sc.len(),
            out@ == base2 + sc@.subrange(0, j as int),
        decreases sc.len() - j,
    {
        out.push(sc[j]);
        j = j + 1;
    }
    assert(out@ =~= token_text(user_id as int, now as nat, salt@));
    string_from_chars(&out)
}

/// A generated token names the user it was made for, and no other user:
/// whatever the time stamp and salt, `verify_user_token` accepts it for
/// that id and refuses it for every other id.
pub proof fn law_token_names_its_user(user_id: i64, nanos: nat, salt: Seq<char>, other: i64)
    ensures
        token_names_user(token_text(user_id as int, nanos, salt), user_id as int),
        other != user_id ==> !token_names_user(token_text(user_id as int, nanos, salt), other as int),
{
    let rest = nat_decimal(nanos) + seq![':'] + salt;
    assert(token_text(user_id as int, nanos, salt) =~= int_decimal(user_id as int) + seq![':'] + rest);
    lemma_token_names_its_user(user_id, rest, other);
}

// ---------------------------------------------------------------------------
// Prices
// ---------------------------------------------------------------------------

/// Characters a price keeps: ASCII digits and the decimal point.
pub open spec fn price_kept(c: char) -> bool {
    is_digit_spec(c) || c == '.'
}

/// Characters a price skips: thousands commas and white space.
pub open spec fn price_skipped(c: char) -> bool {
    c == ',' || unicode_whitespace(c)
}

/// The kept characters of `s`, in order.
pub open spec fn price_cleaned(s: Seq<char>) -> Seq<char>
    decreases s.len(),
{
    if s.len() == 0 {
        Seq::empty()
    } else {
        let r = price_cleaned(s.drop_last());
        if price_kept(s.last()) {
            r.push(s.last())
        } else {
            r
        }
    }
}

/// Outcome of parsing a price into minor units (cents), with the message of
/// the first check that fails. Without a decimal point the number is taken
/// as already in minor units; with one, at most two fraction digits are allowed.
pub open spec fn parse_price_outcome(s: Seq<char>) -> Result<int, Seq<char>> {
    if all_whitespace(s) {
        Err("empty input"@)
    } else if s[0] == '-' {
        Err("negative not allowed"@)
    } else if exists|i: int| 0 <= i < s.len() && !price_kept(#[trigger] s[i]) && !price_skipped(s[i]) {
        Err("invalid character"@)
    } else {
        let c = price_cleaned(s);
        let e = field_end(c, '.') as int;
        if e < c.len() && c.subrange(e + 1, c.len() as int).contains('.') {
            Err("too many decimal points"@)
        } else {
            let ip = c.subrange(0, e);
            if ip.len() == 0 || digits_value(ip) > i64::MAX {
                Err("invalid integer"@)
            } else if e == c.len() {
                Ok(digits_value(ip))
            } else {
                let f = c.subrange(e + 1, c.len() as int);
                if f.len() == 0 {
                    Ok(digits_value(ip) * 100)
                } else if f.len() == 1 {
                    Ok(digits_value(ip) * 100 + digit_val(f[0]) * 10)
                } else if f.len() == 2 {
                    Ok(digits_value(ip) * 100 + digits_value(f))
                } else {
                    Err("too many fraction digits"@)
                }
            }
        }
    }
}

/// Parse a price such as `1,234.56` or `1234` into minor units.
pub fn parse_price(s: &str) -> (r: Result<i64, String>)
    requires
        parse_price_outcome(s@) matches Ok(v) ==> v <= i64::MAX,
    ensures
        msg_view(r) == (match parse_price_outcome(s@) {
            Ok(v) => Ok(v as i64),
            Err(m) => Err(m),
        }),
{
    if is_blank(s) {
        return Err("empty input".to_string());
    }
    let cs = chars_of(s);
    if cs[0] == '-' {
        return Err("negative not allowed".to_string());
    }
    let mut cleaned: Vec<char> = Vec::new();
    let mut i: usize = 0;
    while i < cs.len()
        invariant
            cs@ == s@,
            !all_whitespace(s@),
            s@[0] != '-',
            i <= cs.len(),
            cleaned@ == price_cleaned(cs@.subrange(0, i as int)),
            forall|k: int| 0 <= k < i ==> price_kept(#[trigger] cs@[k]) || price_skipped(cs@[k]),
            forall|k: int| 0 <= k < cleaned@.len() ==> price_kept(#[trigger] cleaned@[k]),
        decreases cs.len() - i,
    {
        let ch = cs[i];
        assert(cs@.subrange(0, i + 1).drop_last() =~= cs@.subrange(0, i as int));
        if is_digit(ch) || ch == '.' {
            cleaned.push(ch);
        } else if ch == ',' || is_whitespace(ch) {
        } else {
            assert(!price_kept(s@[i as int]) && !price_skipped(s@[i as int]));
            return Err("invalid character".to_string());
        }
        i = i + 1;
    }
    assert(cs@.subrange(0, cs@.len() as int) =~= cs@);
    let e = find_first(&cleaned, '.');
    let ghost c = cleaned@;
    if e < cleaned.len() {
        let after = sub_chars(&cleaned, e + 1, cleaned.len());
        if has_dot(&after) {
            return Err("too many decimal points".to_string());
        }
    }
    let ip = sub_chars(&cleaned, 0, e);
    assert(all_digit_chars(ip@)) by {
        assert forall|k: int| 0 <= k < ip@.len() implies is_digit_spec(#[trigger] ip@[k]) by {
            assert(ip@[k] == c[k]);
            assert(price_kept(c[k]));
        }
    }
    if ip.len() == 0 {
        return Err("invalid integer".to_string());
    }
    let int_value = match digits_value_upto(&ip, 9223372036854775807u64) {
        None => {
            return Err("invalid integer".to_string());
        },
        Some(v) => v as i64,
    };
    if e == cleaned.len() {
        return Ok(int_value);
    }
    let f = sub_chars(&cleaned, e + 1, cleaned.len());
    assert(all_digit_chars(f@)) by {
        assert forall|k: int| 0 <= k < f@.len() implies is_digit_spec(#[trigger] f@[k]) by {
            assert(f@[k] == c[e + 1 + k]);
            assert(price_kept(c[e + 1 + k]));
            if f@[k] == '.' {
                assert(f@.contains('.'));
            }
        }
    }
    let cents: i64 = if f.len() == 0 {
        0
    } else if f.len() == 1 {
        (char_digit_value(f[0]) as i64) * 10
    } else if f.len() == 2 {
        assert(f@.drop_last() =~= seq![f@[0]]);
        assert(seq![f@[0]].drop_last() =~= Seq::<char>::empty());
        proof {
            lemma_digits_value_single(f@[0]);
        }
        assert(digits_value(f@) == digit_val(f@[0]) * 10 + digit_val(f@[1]));
        (char_digit_value(f[0]) as i64) * 10 + (char_digit_value(f[1]) as i64)
    } else {
        return Err("too many fraction digits".to_string());
    };
    assert(c == price_cleaned(s@));
    assert(!(exists|k: int| 0 <= k < s@.len() && !price_kept(#[trigger] s@[k]) && !price_skipped(s@[k])));
    assert(!c.subrange(e + 1, c.len() as int).contains('.'));
    assert(ip@ == c.subrange(0, e as int));
    assert(int_value == digits_value(ip@));
    assert(f@ == c.subrange(e + 1, c.len() as int));
    assert(parse_price_outcome(s@) == Ok::<int, Seq<char>>(int_value * 100 + cents));
    Ok(int_value * 100 + cents)
}

/// Whether `v` holds a `.`.
fn has_dot(v: &Vec<char>) -> (b: bool)
    ensures
        b == v@.contains('.'),
{
    crate::text::has_char(v, '.')
}

} // verus!
