//! Character-level helpers shared by the validators, formatters and parsers.
//!
//! The Unicode character classes and case mapping come from `std`; their
//! results are named here and the rest of the crate reasons over those names.
use vstd::prelude::*;
use vstd::string::StringSliceAdditionalSpecFns;

verus! {

/// A `Result` whose error message is taken by its characters.
pub open spec fn msg_view<T>(r: Result<T, String>) -> Result<T, Seq<char>> {
    match r {
        Ok(v) => Ok(v),
        Err(m) => Err(m@),
    }
}

/// ASCII decimal digit.
pub open spec fn is_digit_spec(c: char) -> bool {
    '0' <= c && c <= '9'
}

/// ASCII upper-case letter.
pub open spec fn is_ascii_upper_spec(c: char) -> bool {
    'A' <= c && c <= 'Z'
}

/// ASCII lower-case letter.
pub open spec fn is_ascii_lower_spec(c: char) -> bool {
    'a' <= c && c <= 'z'
}

/// ASCII letter.
pub open spec fn is_ascii_alpha_spec(c: char) -> bool {
    is_ascii_upper_spec(c) || is_ascii_lower_spec(c)
}

/// ASCII letter or digit.
pub open spec fn is_ascii_alnum_spec(c: char) -> bool {
    is_ascii_alpha_spec(c) || is_digit_spec(c)
}

/// Unicode `Alphabetic` property of a character, as `char::is_alphabetic` reports it.
pub uninterp spec fn unicode_alphabetic(c: char) -> bool;

/// Unicode numeric class (`Nd`, `Nl`, `No`), as `char::is_numeric` reports it.
pub uninterp spec fn unicode_numeric(c: char) -> bool;

/// Unicode `White_Space` property, as `char::is_whitespace` reports it:
/// tab to carriage return, space, next line, no-break space, Ogham space
/// mark, the spaces from en quad to hair space, line and paragraph
/// separators, narrow no-break space, medium mathematical space and
/// ideographic space.
pub open spec fn unicode_whitespace(c: char) -> bool {
    let u = c as u32;
    ||| 0x09 <= u <= 0x0D
    ||| u == 0x20
    ||| u == 0x85
    ||| u == 0xA0
    ||| u == 0x1680
    ||| 0x2000 <= u <= 0x200A
    ||| u == 0x2028
    ||| u == 0x2029
    ||| u == 0x202F
    ||| u == 0x205F
    ||| u == 0x3000
}

/// Unicode `Uppercase` property, as `char::is_uppercase` reports it.
pub uninterp spec fn unicode_uppercase(c: char) -> bool;

/// Unicode `Lowercase` property, as `char::is_lowercase` reports it.
pub uninterp spec fn unicode_lowercase(c: char) -> bool;

/// Full Unicode lower-casing of a string, as `str::to_lowercase` computes it.
pub uninterp spec fn unicode_to_lowercase(s: Seq<char>) -> Seq<char>;

/// Letters and numbers in the Unicode sense (`char::is_alphanumeric`).
pub open spec fn unicode_alphanumeric(c: char) -> bool {
    unicode_alphabetic(c) || unicode_numeric(c)
}

/// Calls `char::is_alphabetic`; the result is the character's Unicode
/// `Alphabetic` property, a fixed table of the standard library.
#[verifier::external_body]
pub fn is_alphabetic(c: char) -> (b: bool)
    ensures
        b == unicode_alphabetic(c),
{
    c.is_alphabetic()
}

/// Calls `char::is_numeric`; the result is whether the character lies in one
/// of the Unicode numeric general categories.
#[verifier::external_body]
pub fn is_numeric(c: char) -> (b: bool)
    ensures
        b == unicode_numeric(c),
{
    c.is_numeric()
}

/// Calls `char::is_whitespace`; the result is the Unicode `White_Space`
/// property, whose 25 code points `unicode_whitespace` lists.
#[verifier::external_body]
pub fn is_whitespace(c: char) -> (b: bool)
    ensures
        b == unicode_whitespace(c),
{
    c.is_whitespace()
}

/// Calls `char::is_uppercase`; the result is the Unicode `Uppercase` property.
#[verifier::external_body]
pub fn is_uppercase(c: char) -> (b: bool)
    ensures
        b == unicode_uppercase(c),
{
    c.is_uppercase()
}

/// Calls `char::is_lowercase`; the result is the Unicode `Lowercase` property.
#[verifier::external_body]
pub fn is_lowercase(c: char) -> (b: bool)
    ensures
        b == unicode_lowercase(c),
{
    c.is_lowercase()
}

/// Calls `str::to_lowercase`; the result is the Unicode lower-case mapping of
/// the whole string, which depends on the string alone. Also claimed: no
/// ASCII capital is left in it, and lower-case ASCII letters, digits and `-`
/// have no other lower case, so a text of those alone comes back as it is.
#[verifier::external_body]
pub fn to_lowercase(s: &str) -> (r: String)
    ensures
        r@ == unicode_to_lowercase(s@),
        forall|i: int| 0 <= i < r@.len() ==> !is_ascii_upper_spec(#[trigger] r@[i]),
        (forall|i: int|
            0 <= i < s@.len() ==> is_ascii_lower_spec(#[trigger] s@[i]) || is_digit_spec(s@[i]) || s@[i] == '-')
            ==> r@ == s@,
{
    s.to_lowercase()
}

/// Calls `String::push`, which appends one character.
#[verifier::external_body]
pub fn push_char(s: &mut String, c: char)
    ensures
        final(s)@ == old(s)@.push(c),
{
    s.push(c)
}

/// `char::is_alphanumeric`, which std documents as alphabetic or numeric.
pub fn is_alphanumeric(c: char) -> (b: bool)
    ensures
        b == unicode_alphanumeric(c),
{
    is_alphabetic(c) || is_numeric(c)
}

/// ASCII decimal digit.
pub fn is_digit(c: char) -> (b: bool)
    ensures
        b == is_digit_spec(c),
{
    c >= '0' && c <= '9'
}

/// ASCII upper-case letter.
pub fn is_ascii_upper(c: char) -> (b: bool)
    ensures
        b == is_ascii_upper_spec(c),
{
    c >= 'A' && c <= 'Z'
}

/// ASCII lower-case letter.
pub fn is_ascii_lower(c: char) -> (b: bool)
    ensures
        b == is_ascii_lower_spec(c),
{
    c >= 'a' && c <= 'z'
}

/// ASCII letter or digit.
pub fn is_ascii_alnum(c: char) -> (b: bool)
    ensures
        b == is_ascii_alnum_spec(c),
{
    is_ascii_upper(c) || is_ascii_lower(c) || is_digit(c)
}

/// Length of the UTF-8 encoding of `s`.
pub open spec fn utf8_len(s: Seq<char>) -> nat {
    vstd::utf8::encode_utf8(s).len()
}

/// Length of `s` in UTF-8 bytes (`str::len`).
pub fn byte_len(s: &str) -> (n: usize)
    ensures
        n as nat == utf8_len(s@),
{
    s.as_bytes().len()
}

/// The characters of `s`, in order.
pub fn chars_of(s: &str) -> (r: Vec<char>)
    ensures
        r@ == s@,
{
    let n = s.unicode_len();
    let mut v: Vec<char> = Vec::new();
    let mut i: usize = 0;
    while i < n
        invariant
            n == s@.len(),
            i <= n,
            v@ == s@.subrange(0, i as int),
        decreases n - i,
    {
        let c = s.get_char(i);
        v.push(c);
        i = i + 1;
    }
    v
}

/// A string holding exactly the characters of `v`.
pub fn string_from_chars(v: &Vec<char>) -> (r: String)
    ensures
        r@ == v@,
{
    let mut s = String::new();
    let mut i: usize = 0;
    while i < v.len()
        invariant
            i <= v.len(),
            s@ == v@.subrange(0, i as int),
        decreases v.len() - i,
    {
        push_char(&mut s, v[i]);
        i = i + 1;
    }
    s
}

/// An owned copy of a string slice.
pub fn owned(s: &str) -> (r: String)
    ensures
        r@ == s@,
{
    String::from_str(s)
}

/// Whether two strings hold the same characters.
pub fn str_eq(a: &str, b: &str) -> (r: bool)
    ensures
        r == (a@ == b@),
{
    let x = chars_of(a);
    let y = chars_of(b);
    if x.len() != y.len() {
        return false;
    }
    let mut i: usize = 0;
    while i < x.len()
        invariant
            x@ == a@,
            y@ == b@,
            x.len() == y.len(),
            i <= x.len(),
            forall|k: int| 0 <= k < i ==> x@[k] == y@[k],
        decreases x.len() - i,
    {
        if x[i] != y[i] {
            assert(x@[i as int] != y@[i as int]);
            return false;
        }
        i = i + 1;
    }
    assert(x@ =~= y@);
    true
}

/// Every character of `s` is white space (the string trims to nothing).
pub open spec fn all_whitespace(s: Seq<char>) -> bool {
    forall|i: int| 0 <= i < s.len() ==> unicode_whitespace(#[trigger] s[i])
}

/// `s.trim().is_empty()`: no character of `s` is white space.
pub fn is_blank(s: &str) -> (b: bool)
    ensures
        b == all_whitespace(s@),
{
    let cs = chars_of(s);
    let mut i: usize = 0;
    while i < cs.len()
        invariant
            cs@ == s@,
            i <= cs.len(),
            forall|j: int| 0 <= j < i ==> unicode_whitespace(#[trigger] s@[j]),
        decreases cs.len() - i,
    {
        if !is_whitespace(cs[i]) {
            return false;
        }
        i = i + 1;
    }
    true
}

/// `c` occurs in `s`.
pub fn has_char(s: &Vec<char>, c: char) -> (b: bool)
    ensures
        b == s@.contains(c),
{
    let mut i: usize = 0;
    while i < s.len()
        invariant
            i <= s.len(),
            forall|j: int| 0 <= j < i ==> s@[j] != c,
        decreases s.len() - i,
    {
        if s[i] == c {
            assert(s@[i as int] == c);
            return true;
        }
        i = i + 1;
    }
    false
}

/// `needle` occurs in `hay` as a contiguous run starting at `at`.
pub open spec fn occurs_at(hay: Seq<char>, needle: Seq<char>, at: int) -> bool {
    0 <= at && at + needle.len() <= hay.len() && hay.subrange(at, at + needle.len()) == needle
}

/// `needle` occurs in `hay` as a contiguous run (`str::contains`).
pub open spec fn contains_seq(hay: Seq<char>, needle: Seq<char>) -> bool {
    exists|at: int| occurs_at(hay, needle, at)
}

/// Whether `needle` occurs at position `at` of `hay`.
fn matches_at(hay: &Vec<char>, needle: &Vec<char>, at: usize) -> (b: bool)
    requires
        at + needle.len() <= hay.len(),
    ensures
        b == occurs_at(hay@, needle@, at as int),
{
    let mut k: usize = 0;
    while k < needle.len()
        invariant
            at + needle.len() <= hay.len(),
            k <= needle.len(),
            forall|j: int| 0 <= j < k ==> hay@[at + j] == needle@[j],
        decreases needle.len() - k,
    {
        if hay[at + k] != needle[k] {
            assert(hay@.subrange(at as int, at + needle.len())[k as int] != needle@[k as int]);
            return false;
        }
        k = k + 1;
    }
    assert(hay@.subrange(at as int, at + needle@.len()) =~= needle@);
    true
}

/// `str::contains` on character sequences.
pub fn contains_chars(hay: &Vec<char>, needle: &Vec<char>) -> (b: bool)
    ensures
        b == contains_seq(hay@, needle@),
{
    if needle.len() > hay.len() {
        return false;
    }
    let last = hay.len() - needle.len();
    let mut at: usize = 0;
    while at < last
        invariant
            last == hay.len() - needle.len(),
            needle.len() <= hay.len(),
            at <= last,
            forall|p: int| 0 <= p < at ==> !occurs_at(hay@, needle@, p),
        decreases last - at,
    {
        if matches_at(hay, needle, at) {
            return true;
        }
        at = at + 1;
    }
    let found = matches_at(hay, needle, last);
    assert forall|p: int| p != last && #[trigger] occurs_at(hay@, needle@, p) implies false by {
        assert(p < at);
    }
    found
}

/// `str::contains` for a string slice and a pattern.
pub fn str_contains(hay: &str, needle: &str) -> (b: bool)
    ensures
        b == contains_seq(hay@, needle@),
{
    let h = chars_of(hay);
    let n = chars_of(needle);
    contains_chars(&h, &n)
}


/// Whether `s` starts with `prefix`.
pub fn starts_with_chars(s: &str, prefix: &str) -> (b: bool)
    ensures
        b == (prefix@.len() <= s@.len() && s@.subrange(0, prefix@.len() as int) == prefix@),
{
    let x = chars_of(s);
    let y = chars_of(prefix);
    if y.len() > x.len() {
        return false;
    }
    let mut i: usize = 0;
    while i < y.len()
        invariant
            x@ == s@,
            y@ == prefix@,
            y@.len() <= x@.len(),
            i <= y@.len(),
            forall|k: int| 0 <= k < i ==> x@[k] == y@[k],
        decreases y.len() - i,
    {
        if x[i] != y[i] {
            assert(s@.subrange(0, prefix@.len() as int)[i as int] != prefix@[i as int]);
            return false;
        }
        i = i + 1;
    }
    assert(s@.subrange(0, prefix@.len() as int) =~= prefix@);
    true
}

/// `s` without its leading white space.
pub open spec fn trim_start(s: Seq<char>) -> Seq<char>
    decreases s.len(),
{
    if s.len() > 0 && unicode_whitespace(s[0]) {
        trim_start(s.drop_first())
    } else {
        s
    }
}

/// `s` without its trailing white space.
pub open spec fn trim_end(s: Seq<char>) -> Seq<char>
    decreases s.len(),
{
    if s.len() > 0 && unicode_whitespace(s.last()) {
        trim_end(s.drop_last())
    } else {
        s
    }
}

/// `s` without leading and trailing white space (`str::trim`).
pub open spec fn trimmed(s: Seq<char>) -> Seq<char> {
    trim_end(trim_start(s))
}

/// `str::trim`, as an owned string.
pub fn trim_str(s: &str) -> (r: String)
    ensures
        r@ == trimmed(s@),
{
    let cs = chars_of(s);
    let n = cs.len();
    let mut i: usize = 0;
    assert(s@.subrange(0, n as int) =~= s@);
    while i < n && is_whitespace(cs[i])
        invariant
            cs@ == s@,
            n == cs@.len(),
            i <= n,
            trim_start(s@) == trim_start(s@.subrange(i as int, n as int)),
        decreases n - i,
    {
        assert(s@.subrange(i as int, n as int).drop_first() =~= s@.subrange(i + 1, n as int));
        i = i + 1;
    }
    if i == n {
        assert(s@.subrange(i as int, n as int) =~= Seq::<char>::empty());
    } else {
        assert(s@.subrange(i as int, n as int)[0] == cs@[i as int]);
    }
    let ghost t = s@.subrange(i as int, n as int);
    assert(trim_start(s@) == t);
    let mut j: usize = n;
    while j > i && is_whitespace(cs[j - 1])
        invariant
            cs@ == s@,
            n == cs@.len(),
            i <= j <= n,
            t == s@.subrange(i as int, n as int),
            trim_end(t) == trim_end(s@.subrange(i as int, j as int)),
        decreases j - i,
    {
        assert(s@.subrange(i as int, j as int).drop_last() =~= s@.subrange(i as int, j - 1));
        j = j - 1;
    }
    if j > i {
        assert(s@.subrange(i as int, j as int).last() == cs@[j - 1]);
    }
    let mut out: Vec<char> = Vec::new();
    let mut k: usize = i;
    while k < j
        invariant
            cs@ == s@,
            i <= k <= j <= n,
            n == cs@.len(),
            out@ == s@.subrange(i as int, k as int),
        decreases j - k,
    {
        out.push(cs[k]);
        assert(out@ =~= s@.subrange(i as int, k + 1));
        k = k + 1;
    }
    string_from_chars(&out)
}

/// The pieces of `s` between line feeds; there is always at least one.
pub open spec fn split_lf(s: Seq<char>) -> Seq<Seq<char>>
    decreases s.len(),
{
    if s.len() == 0 {
        seq![Seq::empty()]
    } else {
        let r = split_lf(s.drop_last());
        if s.last() == '\n' {
            r.push(Seq::empty())
        } else {
            r.update(r.len() - 1, r.last().push(s.last()))
        }
    }
}

/// A line ended by a line feed, without a carriage return before it.
pub open spec fn strip_cr(l: Seq<char>) -> Seq<char> {
    if l.len() > 0 && l.last() == '\r' {
        l.drop_last()
    } else {
        l
    }
}

/// The lines of a text as `str::lines` gives them: split at line feeds, a
/// carriage return before a line feed dropped, and no empty last line.
pub open spec fn text_lines(s: Seq<char>) -> Seq<Seq<char>> {
    let parts = split_lf(s);
    let ended = parts.drop_last().map_values(|l: Seq<char>| strip_cr(l));
    if parts.last().len() == 0 {
        ended
    } else {
        ended.push(parts.last())
    }
}

/// `split_lf` never gives an empty list.
pub proof fn lemma_split_lf_len(s: Seq<char>)
    ensures
        split_lf(s).len() >= 1,
    decreases s.len(),
{
    if s.len() > 0 {
        lemma_split_lf_len(s.drop_last());
    }
}

/// The lines of a text (`str::lines`).
pub fn lines_of(s: &str) -> (r: Vec<String>)
    ensures
        r@.map_values(|l: String| l@) == text_lines(s@),
{
    let cs = chars_of(s);
    let mut done: Vec<String> = Vec::new();
    let mut cur: Vec<char> = Vec::new();
    let mut i: usize = 0;
    while i < cs.len()
        invariant
            cs@ == s@,
            i <= cs@.len(),
            split_lf(s@.subrange(0, i as int)) == done@.map_values(|l: String| l@).push(cur@),
        decreases cs.len() - i,
    {
        let c = cs[i];
        assert(s@.subrange(0, i + 1).drop_last() =~= s@.subrange(0, i as int));
        assert(s@.subrange(0, i + 1).last() == c);
        if c == '\n' {
            let ghost d0 = done@.map_values(|l: String| l@);
            done.push(string_from_chars(&cur));
            cur = Vec::new();
            assert(done@.map_values(|l: String| l@) =~= d0.push(done@.last()@));
            assert(split_lf(s@.subrange(0, i + 1)) =~= done@.map_values(|l: String| l@).push(cur@));
        } else {
            let ghost d0 = done@.map_values(|l: String| l@);
            cur.push(c);
            assert(split_lf(s@.subrange(0, i + 1)) =~= d0.push(cur@));
        }
        i = i + 1;
    }
    assert(s@.subrange(0, s@.len() as int) =~= s@);
    let ghost parts = split_lf(s@);
    let ghost ended = parts.drop_last().map_values(|l: Seq<char>| strip_cr(l));
    assert(parts.drop_last() =~= done@.map_values(|l: String| l@));
    let mut out: Vec<String> = Vec::new();
    let mut k: usize = 0;
    while k < done.len()
        invariant
            parts == split_lf(s@),
            ended == parts.drop_last().map_values(|l: Seq<char>| strip_cr(l)),
            parts.drop_last() == done@.map_values(|l: String| l@),
            k <= done@.len(),
            out@.map_values(|l: String| l@) == ended.subrange(0, k as int),
        decreases done.len() - k,
    {
        let line = chars_of(done[k].as_str());
        let ghost before = out@.map_values(|l: String| l@);
        if line.len() > 0 && line[line.len() - 1] == '\r' {
            let mut t: Vec<char> = Vec::new();
            let mut m: usize = 0;
            while m + 1 < line.len()
                invariant
                    line.len() > 0,
                    m + 1 <= line@.len(),
                    t@ == line@.subrange(0, m as int),
                decreases line.len() - m,
            {
                t.push(line[m]);
                m = m + 1;
            }
            assert(t@ =~= line@.drop_last());
            out.push(string_from_chars(&t));
        } else {
            out.push(string_from_chars(&line));
        }
        assert(out@.map_values(|l: String| l@) =~= before.push(ended[k as int]));
        assert(ended.subrange(0, k + 1) =~= ended.subrange(0, k as int).push(ended[k as int]));
        k = k + 1;
    }
    assert(ended.subrange(0, ended.len() as int) =~= ended);
    if cur.len() > 0 {
        let ghost before = out@.map_values(|l: String| l@);
        out.push(string_from_chars(&cur));
        assert(out@.map_values(|l: String| l@) =~= before.push(cur@));
    }
    out
}

} // verus!
