//! Search-query clean-up, slugs, price display and price trends.
use vstd::prelude::*;
use crate::text::{
    chars_of, is_ascii_alnum, is_ascii_alnum_spec, is_ascii_lower_spec, is_ascii_upper_spec, is_digit_spec,
    is_whitespace, string_from_chars, to_lowercase, unicode_to_lowercase, unicode_whitespace,
};
use crate::utils::numbers::{digit_char, digit_to_char, nat_decimal, u64_decimal};
use crate::utils::sub_chars;

verus! {

// ---------------------------------------------------------------------------
// Search queries
// ---------------------------------------------------------------------------

/// The runs of non-white-space characters of `s`, joined by single spaces.
pub open spec fn collapse_ws(s: Seq<char>) -> Seq<char>
    decreases s.len(),
{
    if s.len() == 0 {
        Seq::empty()
    } else {
        let r = collapse_ws(s.drop_last());
        let c = s.last();
        if unicode_whitespace(c) {
            r
        } else if r.len() > 0 && unicode_whitespace(s[s.len() - 2]) {
            r.push(' ').push(c)
        } else {
            r.push(c)
        }
    }
}

/// Clean a search query: line breaks and tabs become spaces, runs of white
/// space become one space, and leading and trailing white space goes.
pub fn sanitize_search_query(input: &str) -> (r: String)
    ensures
        r@ == collapse_ws(input@),
{
    let cs = chars_of(input);
    let mut out: Vec<char> = Vec::new();
    let mut prev_ws = false;
    let mut i: usize = 0;
    while i < cs.len()
        invariant
            cs@ == input@,
            i <= cs.len(),
            out@ == collapse_ws(cs@.subrange(0, i as int)),
            i > 0 ==> prev_ws == unicode_whitespace(cs@[i - 1]),
        decreases cs.len() - i,
    {
        let c = cs[i];
        let ghost pre = cs@.subrange(0, i as int);
        let ghost cur = cs@.subrange(0, i + 1);
        assert(cur.drop_last() =~= pre);
        assert(cur.last() == c);
        if i > 0 {
            assert(cur[cur.len() - 2] == cs@[i - 1]);
        }
        let ws = is_whitespace(c);
        if !ws {
            if out.len() > 0 && prev_ws {
                out.push(' ');
            }
            out.push(c);
        }
        prev_ws = ws;
        i = i + 1;
    }
    assert(cs@.subrange(0, cs@.len() as int) =~= cs@);
    string_from_chars(&out)
}

// ---------------------------------------------------------------------------
// Slugs
// ---------------------------------------------------------------------------

/// The plain letter that stands for an accented lower-case letter.
pub open spec fn accent_fold(c: char) -> Option<char> {
    if c == 'á' || c == 'à' || c == 'ä' || c == 'â' || c == 'ã' || c == 'å' || c == 'ā' {
        Some('a')
    } else if c == 'é' || c == 'è' || c == 'ë' || c == 'ê' || c == 'ē' {
        Some('e')
    } else if c == 'í' || c == 'ì' || c == 'ï' || c == 'î' || c == 'ī' {
        Some('i')
    } else if c == 'ó' || c == 'ò' || c == 'ö' || c == 'ô' || c == 'õ' || c == 'ō' || c == 'ø' {
        Some('o')
    } else if c == 'ú' || c == 'ù' || c == 'ü' || c == 'û' || c == 'ū' {
        Some('u')
    } else if c == 'ñ' {
        Some('n')
    } else if c == 'ç' {
        Some('c')
    } else if c == 'ß' || c == 'š' {
        Some('s')
    } else if c == 'ý' || c == 'ÿ' {
        Some('y')
    } else if c == 'ž' {
        Some('z')
    } else if c == 'đ' {
        Some('d')
    } else if c == 'ł' {
        Some('l')
    } else if c == 'ğ' {
        Some('g')
    } else {
        None
    }
}

/// What one lower-cased character becomes in a slug (`None`: dropped).
pub open spec fn slug_char(c: char) -> Option<char> {
    if is_ascii_alnum_spec(c) {
        Some(c)
    } else if unicode_whitespace(c) || c == '-' {
        Some('-')
    } else {
        accent_fold(c)
    }
}

/// Every character mapped through `slug_char`, dropped ones left out.
pub open spec fn slug_mapped(s: Seq<char>) -> Seq<char>
    decreases s.len(),
{
    if s.len() == 0 {
        Seq::empty()
    } else {
        let r = slug_mapped(s.drop_last());
        match slug_char(s.last()) {
            Some(m) => r.push(m),
            None => r,
        }
    }
}

/// Runs of `-` shortened to one `-`.
pub open spec fn squeeze_dashes(s: Seq<char>) -> Seq<char>
    decreases s.len(),
{
    if s.len() == 0 {
        Seq::empty()
    } else {
        let r = squeeze_dashes(s.drop_last());
        if s.last() == '-' && r.len() > 0 && r.last() == '-' {
            r
        } else {
            r.push(s.last())
        }
    }
}

/// `s` without its leading `-` characters.
pub open spec fn trim_dash_start(s: Seq<char>) -> Seq<char>
    decreases s.len(),
{
    if s.len() > 0 && s[0] == '-' {
        trim_dash_start(s.drop_first())
    } else {
        s
    }
}

/// `s` without its trailing `-` characters.
pub open spec fn trim_dash_end(s: Seq<char>) -> Seq<char>
    decreases s.len(),
{
    if s.len() > 0 && s.last() == '-' {
        trim_dash_end(s.drop_last())
    } else {
        s
    }
}

/// The slug of a string: lower-cased, letters and digits kept, accents
/// folded, white space and `-` turned into single `-`, other characters
/// dropped, and no `-` at either end.
pub open spec fn slug_spec(s: Seq<char>) -> Seq<char> {
    trim_dash_end(trim_dash_start(squeeze_dashes(slug_mapped(unicode_to_lowercase(s)))))
}

/// A character a slug may hold: a lower-case ASCII letter, a digit or `-`.
pub open spec fn slug_char_ok(c: char) -> bool {
    is_ascii_lower_spec(c) || is_digit_spec(c) || c == '-'
}

/// The characters of `s` are all ones a slug may hold.
pub open spec fn slug_chars(s: Seq<char>) -> bool {
    forall|i: int| 0 <= i < s.len() ==> slug_char_ok(#[trigger] s[i])
}

/// No two `-` stand side by side in `s`.
pub open spec fn single_dashes(s: Seq<char>) -> bool {
    forall|i: int, j: int| 0 <= i && j == i + 1 && j < s.len() ==> !(#[trigger] s[i] == '-' && #[trigger] s[j] == '-')
}

/// The form of a slug: lower-case ASCII letters, digits and single `-`,
/// with no `-` at either end.
pub open spec fn slug_shaped(t: Seq<char>) -> bool {
    &&& slug_chars(t)
    &&& single_dashes(t)
    &&& t.len() > 0 ==> t[0] != '-' && t.last() != '-'
}

/// Mapping text without ASCII capitals gives characters a slug may hold.
proof fn lemma_mapped_chars(s: Seq<char>)
    requires
        forall|i: int| 0 <= i < s.len() ==> !is_ascii_upper_spec(#[trigger] s[i]),
    ensures
        slug_chars(slug_mapped(s)),
    decreases s.len(),
{
    if s.len() > 0 {
        let d = s.drop_last();
        assert forall|i: int| 0 <= i < d.len() implies !is_ascii_upper_spec(#[trigger] d[i]) by {
            assert(d[i] == s[i]);
        }
        lemma_mapped_chars(d);
        let c = s.last();
        assert(!is_ascii_upper_spec(c));
        let r = slug_mapped(d);
        match slug_char(c) {
            Some(m) => {
                assert(slug_char_ok(m));
                assert forall|i: int| 0 <= i < r.push(m).len() implies slug_char_ok(#[trigger] r.push(m)[i]) by {
                    if i < r.len() {
                        assert(r.push(m)[i] == r[i]);
                    }
                }
            },
            None => {},
        }
    }
}

/// Squeezing dashes keeps the characters and leaves single dashes.
proof fn lemma_squeeze_shape(s: Seq<char>)
    requires
        slug_chars(s),
    ensures
        slug_chars(squeeze_dashes(s)),
        single_dashes(squeeze_dashes(s)),
    decreases s.len(),
{
    if s.len() > 0 {
        let d = s.drop_last();
        assert forall|i: int| 0 <= i < d.len() implies slug_char_ok(#[trigger] d[i]) by {
            assert(d[i] == s[i]);
        }
        lemma_squeeze_shape(d);
        let r = squeeze_dashes(d);
        let c = s.last();
        assert(slug_char_ok(c));
        if !(c == '-' && r.len() > 0 && r.last() == '-') {
            let q = r.push(c);
            assert forall|i: int| 0 <= i < q.len() implies slug_char_ok(#[trigger] q[i]) by {
                if i < r.len() {
                    assert(q[i] == r[i]);
                }
            }
            assert forall|i: int, j: int| 0 <= i && j == i + 1 && j < q.len() implies !(#[trigger] q[i] == '-' && #[trigger] q[j] == '-') by {
                if j < r.len() {
                    assert(q[i] == r[i] && q[j] == r[j]);
                } else {
                    assert(q[i] == r.last());
                }
            }
        }
    }
}

/// Dropping leading dashes leaves a suffix that starts with no dash.
proof fn lemma_trim_start(s: Seq<char>) -> (k: int)
    ensures
        0 <= k <= s.len(),
        trim_dash_start(s) == s.subrange(k, s.len() as int),
        trim_dash_start(s).len() > 0 ==> trim_dash_start(s)[0] != '-',
    decreases s.len(),
{
    if s.len() > 0 && s[0] == '-' {
        let k = lemma_trim_start(s.drop_first());
        assert(s.drop_first().subrange(k, s.len() - 1) =~= s.subrange(k + 1, s.len() as int));
        k + 1
    } else {
        assert(s.subrange(0, s.len() as int) =~= s);
        0
    }
}

/// Dropping trailing dashes leaves a prefix that ends with no dash.
proof fn lemma_trim_end(s: Seq<char>) -> (k: int)
    ensures
        0 <= k <= s.len(),
        trim_dash_end(s) == s.subrange(0, k),
        trim_dash_end(s).len() > 0 ==> trim_dash_end(s).last() != '-',
    decreases s.len(),
{
    if s.len() > 0 && s.last() == '-' {
        let k = lemma_trim_end(s.drop_last());
        assert(s.drop_last().subrange(0, k) =~= s.subrange(0, k));
        k
    } else {
        assert(s.subrange(0, s.len() as int) =~= s);
        s.len() as int
    }
}

/// The slug of a text whose lower case holds no ASCII capital has the form
/// of a slug.
proof fn lemma_slug_shaped(s: Seq<char>)
    requires
        forall|i: int| 0 <= i < unicode_to_lowercase(s).len() ==> !is_ascii_upper_spec(#[trigger] unicode_to_lowercase(s)[i]),
    ensures
        slug_shaped(slug_spec(s)),
{
    let m = slug_mapped(unicode_to_lowercase(s));
    lemma_mapped_chars(unicode_to_lowercase(s));
    lemma_squeeze_shape(m);
    let q = squeeze_dashes(m);
    let a = lemma_trim_start(q);
    let u = trim_dash_start(q);
    let b = lemma_trim_end(u);
    let t = trim_dash_end(u);
    assert(t =~= q.subrange(a, a + b));
    assert forall|i: int| 0 <= i < t.len() implies slug_char_ok(#[trigger] t[i]) by {
        assert(t[i] == q[a + i]);
    }
    assert forall|i: int, j: int| 0 <= i && j == i + 1 && j < t.len() implies !(#[trigger] t[i] == '-' && #[trigger] t[j] == '-') by {
        assert(t[i] == q[a + i] && t[j] == q[a + j]);
    }
    if t.len() > 0 {
        assert(t[0] == u[0]);
    }
}

/// A slug-shaped text is its own slug once lower-casing leaves it alone.
pub proof fn law_slug_fixed_point(t: Seq<char>)
    requires
        slug_shaped(t),
        unicode_to_lowercase(t) == t,
    ensures
        slug_spec(t) == t,
{
    lemma_mapped_identity(t);
    lemma_squeeze_identity(t);
}

/// Slug characters map to themselves.
proof fn lemma_mapped_identity(t: Seq<char>)
    requires
        slug_chars(t),
    ensures
        slug_mapped(t) == t,
    decreases t.len(),
{
    if t.len() > 0 {
        let d = t.drop_last();
        assert forall|i: int| 0 <= i < d.len() implies slug_char_ok(#[trigger] d[i]) by {
            assert(d[i] == t[i]);
        }
        lemma_mapped_identity(d);
        assert(slug_char_ok(t.last()));
        assert(t.last() == '-' ==> !is_ascii_alnum_spec(t.last()));
        assert(d.push(t.last()) =~= t);
    }
}

/// Text with single dashes is left as it is by squeezing.
proof fn lemma_squeeze_identity(t: Seq<char>)
    requires
        single_dashes(t),
    ensures
        squeeze_dashes(t) == t,
    decreases t.len(),
{
    if t.len() > 0 {
        let d = t.drop_last();
        assert forall|i: int, j: int| 0 <= i && j == i + 1 && j < d.len() implies !(#[trigger] d[i] == '-' && #[trigger] d[j] == '-') by {
            assert(d[i] == t[i] && d[j] == t[j]);
        }
        lemma_squeeze_identity(d);
        if d.len() > 0 {
            assert(d.last() == t[t.len() - 2]);
            assert(!(t[t.len() - 2] == '-' && t[t.len() - 1] == '-'));
        }
        assert(d.push(t.last()) =~= t);
    }
}

/// `accent_fold` for one character.
fn fold_accent(c: char) -> (r: Option<char>)
    ensures
        r == accent_fold(c),
{
    if c == 'á' || c == 'à' || c == 'ä' || c == 'â' || c == 'ã' || c == 'å' || c == 'ā' {
        Some('a')
    } else if c == 'é' || c == 'è' || c == 'ë' || c == 'ê' || c == 'ē' {
        Some('e')
    } else if c == 'í' || c == 'ì' || c == 'ï' || c == 'î' || c == 'ī' {
        Some('i')
    } else if c == 'ó' || c == 'ò' || c == 'ö' || c == 'ô' || c == 'õ' || c == 'ō' || c == 'ø' {
        Some('o')
    } else if c == 'ú' || c == 'ù' || c == 'ü' || c == 'û' || c == 'ū' {
        Some('u')
    } else if c == 'ñ' {
        Some('n')
    } else if c == 'ç' {
        Some('c')
    } else if c == 'ß' || c == 'š' {
        Some('s')
    } else if c == 'ý' || c == 'ÿ' {
        Some('y')
    } else if c == 'ž' {
        Some('z')
    } else if c == 'đ' {
        Some('d')
    } else if c == 'ł' {
        Some('l')
    } else if c == 'ğ' {
        Some('g')
    } else {
        None
    }
}

/// `v[lo..hi]` with leading and trailing dashes removed.
fn trim_dashes(v: &Vec<char>) -> (r: Vec<char>)
    ensures
        r@ == trim_dash_end(trim_dash_start(v@)),
{
    let mut lo: usize = 0;
    assert(v@.subrange(0, v@.len() as int) =~= v@);
    while lo < v.len() && v[lo] == '-'
        invariant
            lo <= v.len(),
            trim_dash_start(v@) == trim_dash_start(v@.subrange(lo as int, v@.len() as int)),
        decreases v.len() - lo,
    {
        let ghost sub = v@.subrange(lo as int, v@.len() as int);
        assert(sub[0] == '-');
        assert(sub.drop_first() =~= v@.subrange(lo + 1, v@.len() as int));
        lo = lo + 1;
    }
    let ghost mid = v@.subrange(lo as int, v@.len() as int);
    assert(trim_dash_start(v@) == mid) by {
        if lo < v.len() {
            assert(mid[0] == v@[lo as int]);
        }
    }
    let mut hi: usize = v.len();
    assert(mid.subrange(0, mid.len() as int) =~= mid);
    while hi > lo && v[hi - 1] == '-'
        invariant
            lo <= hi <= v.len(),
            mid == v@.subrange(lo as int, v@.len() as int),
            trim_dash_end(mid) == trim_dash_end(mid.subrange(0, hi - lo)),
        decreases hi - lo,
    {
        let ghost sub = mid.subrange(0, hi - lo);
        assert(sub.last() == v@[hi - 1]);
        assert(sub.drop_last() =~= mid.subrange(0, hi - 1 - lo));
        hi = hi - 1;
    }
    let r = sub_chars(v, lo, hi);
    assert(r@ =~= mid.subrange(0, hi - lo));
    if hi > lo {
        assert(r@.last() == v@[hi - 1]);
    }
    r
}

/// URL-friendly slug of `s` (see `slug_spec`).
pub fn slug_from_string(s: &str) -> (r: String)
    ensures
        r@ == slug_spec(s@),
        slug_shaped(r@),
        slug_shaped(s@) ==> r@ == s@,
{
    let lower = to_lowercase(s);
    proof {
        lemma_slug_shaped(s@);
        if slug_shaped(s@) {
            assert forall|i: int| 0 <= i < s@.len() implies is_ascii_lower_spec(#[trigger] s@[i]) || is_digit_spec(s@[i]) || s@[i] == '-' by {
                assert(slug_char_ok(s@[i]));
            }
            law_slug_fixed_point(s@);
        }
    }
    let lc = chars_of(lower.as_str());
    let mut buf: Vec<char> = Vec::new();
    let mut i: usize = 0;
    while i < lc.len()
        invariant
            i <= lc.len(),
            buf@ == slug_mapped(lc@.subrange(0, i as int)),
        decreases lc.len() - i,
    {
        let ch = lc[i];
        assert(lc@.subrange(0, i + 1).drop_last() =~= lc@.subrange(0, i as int));
        assert(lc@.subrange(0, i + 1).last() == ch);
        if is_ascii_alnum(ch) {
            buf.push(ch);
        } else if is_whitespace(ch) || ch == '-' {
            buf.push('-');
        } else {
            match fold_accent(ch) {
                Some(m) => buf.push(m),
                None => {},
            }
        }
        i = i + 1;
    }
    assert(lc@.subrange(0, lc@.len() as int) =~= lc@);
    let mut squeezed: Vec<char> = Vec::new();
    let mut j: usize = 0;
    while j < buf.len()
        invariant
            j <= buf.len(),
            squeezed@ == squeeze_dashes(buf@.subrange(0, j as int)),
        decreases buf.len() - j,
    {
        let ch = buf[j];
        assert(buf@.subrange(0, j + 1).drop_last() =~= buf@.subrange(0, j as int));
        assert(buf@.subrange(0, j + 1).last() == ch);
        let n = squeezed.len();
        if !(ch == '-' && n > 0 && squeezed[n - 1] == '-') {
            squeezed.push(ch);
        }
        j = j + 1;
    }
    assert(buf@.subrange(0, buf@.len() as int) =~= buf@);
    let trimmed = trim_dashes(&squeezed);
    string_from_chars(&trimmed)
}

// ---------------------------------------------------------------------------
// Prices
// ---------------------------------------------------------------------------

/// Currencies a price can be shown in.
#[derive(Debug, Clone, Copy, PartialEq, Eq)]
pub enum Currency {
    JPY,
    USD,
    EUR,
}

/// Distance units.
#[derive(Debug, Clone, Copy, PartialEq, Eq)]
pub enum DistanceUnit {
    Kilometers,
    Miles,
}

/// Date and time display formats.
#[derive(Debug, Clone, Copy, PartialEq, Eq)]
pub enum DateTimeFormat {
    Short,
    Medium,
    Long,
    Full,
}

/// The strftime patterns the date formats are written with.
pub open spec fn known_pattern(p: Seq<char>) -> bool {
    ||| p == "%m/%d/%y"@
    ||| p == "%b %e, %Y"@
    ||| p == "%B %e, %Y %H:%M"@
    ||| p == "%B %e, %Y %H:%M:%S UTC"@
}

/// What chrono writes for the UTC time `timestamp` (Unix seconds) under the
/// strftime `pattern`; `None` where chrono has no date for the timestamp.
pub uninterp spec fn utc_formatted(timestamp: i64, pattern: Seq<char>) -> Option<Seq<char>>;

/// Calls `chrono::DateTime::from_timestamp(timestamp, 0)` and formats the
/// time with `pattern`. Claimed: the text is `utc_formatted(timestamp,
/// pattern)`, and `None` comes exactly where that name is `None`. Which
/// timestamps chrono refuses (some hundreds of thousands of years away) is
/// not stated. The patterns are the fixed ones chrono accepts, so the
/// formatting does not fail.
#[verifier::external_body]
fn format_utc(timestamp: i64, pattern: &str) -> (r: Option<String>)
    requires
        known_pattern(pattern@),
    ensures
        match r {
            Some(t) => utc_formatted(timestamp, pattern@) == Some(t@),
            None => utc_formatted(timestamp, pattern@) is None,
        },
{
    chrono::DateTime::from_timestamp(timestamp, 0).map(|d| d.format(pattern).to_string())
}

/// `s` with each pair of spaces replaced by one, left to right, as
/// `str::replace("  ", " ")` does.
pub open spec fn single_spaced(s: Seq<char>) -> Seq<char>
    decreases s.len(),
{
    if s.len() < 2 {
        s
    } else if s[0] == ' ' && s[1] == ' ' {
        seq![' '] + single_spaced(s.subrange(2, s.len() as int))
    } else {
        seq![s[0]] + single_spaced(s.drop_first())
    }
}

/// Replace each pair of spaces by one, left to right.
pub fn replace_double_spaces(s: &str) -> (r: String)
    ensures
        r@ == single_spaced(s@),
{
    let cs = chars_of(s);
    let n = cs.len();
    let mut out: Vec<char> = Vec::new();
    let mut i: usize = 0;
    assert(cs@.subrange(0, n as int) =~= cs@);
    assert(out@ + single_spaced(cs@) =~= single_spaced(cs@));
    while i < n
        invariant
            n == cs@.len(),
            i <= n,
            out@ + single_spaced(cs@.subrange(i as int, n as int)) == single_spaced(cs@),
        decreases n - i,
    {
        let ghost rest = cs@.subrange(i as int, n as int);
        if i + 1 < n && cs[i] == ' ' && cs[i + 1] == ' ' {
            assert(rest.subrange(2, rest.len() as int) =~= cs@.subrange(i + 2, n as int));
            out.push(' ');
            assert(out@ + single_spaced(cs@.subrange(i + 2, n as int)) =~= out@.drop_last() + single_spaced(rest));
            i = i + 2;
        } else {
            assert(rest.drop_first() =~= cs@.subrange(i + 1, n as int));
            if i + 1 == n {
                assert(rest =~= seq![cs[i as int]]);
                assert(cs@.subrange(i + 1, n as int) =~= Seq::<char>::empty());
            }
            out.push(cs[i]);
            assert(out@ + single_spaced(cs@.subrange(i + 1, n as int)) =~= out@.drop_last() + single_spaced(rest));
            i = i + 1;
        }
    }
    assert(cs@.subrange(n as int, n as int) =~= Seq::<char>::empty());
    assert(out@ + Seq::<char>::empty() =~= out@);
    assert(cs@.subrange(0, n as int) =~= cs@);
    string_from_chars(&out)
}

/// The text of the UTC time `timestamp` in a display format: the short
/// form as chrono writes it, the others with doubled spaces made single.
pub open spec fn datetime_text(timestamp: i64, fmt: DateTimeFormat) -> Option<Seq<char>> {
    let (pattern, collapse) = match fmt {
        DateTimeFormat::Short => ("%m/%d/%y"@, false),
        DateTimeFormat::Medium => ("%b %e, %Y"@, true),
        DateTimeFormat::Long => ("%B %e, %Y %H:%M"@, true),
        DateTimeFormat::Full => ("%B %e, %Y %H:%M:%S UTC"@, true),
    };
    match utc_formatted(timestamp, pattern) {
        Some(t) => Some(if collapse { single_spaced(t) } else { t }),
        None => None,
    }
}

/// The UTC time `timestamp` (Unix seconds) in a display format; `None`
/// where chrono has no date for it.
pub fn format_datetime(timestamp: i64, fmt: DateTimeFormat) -> (r: Option<String>)
    ensures
        match r {
            Some(t) => datetime_text(timestamp, fmt) == Some(t@),
            None => datetime_text(timestamp, fmt) is None,
        },
{
    match fmt {
        DateTimeFormat::Short => format_utc(timestamp, "%m/%d/%y"),
        DateTimeFormat::Medium => match format_utc(timestamp, "%b %e, %Y") {
            Some(t) => Some(replace_double_spaces(t.as_str())),
            None => None,
        },
        DateTimeFormat::Long => match format_utc(timestamp, "%B %e, %Y %H:%M") {
            Some(t) => Some(replace_double_spaces(t.as_str())),
            None => None,
        },
        DateTimeFormat::Full => match format_utc(timestamp, "%B %e, %Y %H:%M:%S UTC") {
            Some(t) => Some(replace_double_spaces(t.as_str())),
            None => None,
        },
    }
}

/// Direction of a price series.
#[derive(Debug, Clone, Copy, PartialEq, Eq)]
pub enum PriceTrend {
    Increasing,
    Decreasing,
    Stable,
}

/// Digits with a `,` before every group of three counted from the right.
pub open spec fn group_thousands(d: Seq<char>) -> Seq<char>
    decreases d.len(),
{
    if d.len() <= 3 {
        d
    } else {
        group_thousands(d.subrange(0, d.len() - 3)) + seq![','] + d.subrange(d.len() - 3, d.len() as int)
    }
}

/// Absolute value.
pub open spec fn magnitude(a: int) -> nat {
    if a < 0 {
        (-a) as nat
    } else {
        a as nat
    }
}

/// Currency symbol.
pub open spec fn currency_symbol(c: Currency) -> char {
    match c {
        Currency::JPY => '¥',
        Currency::USD => '$',
        Currency::EUR => '€',
    }
}

/// Display text of an amount in minor units: the symbol, a `-` for negative
/// amounts, the whole units with thousands commas and, for USD and EUR,
/// a `.` and two cent digits (yen have no minor unit).
pub open spec fn price_text(amount: int, currency: Currency) -> Seq<char> {
    let m = magnitude(amount);
    let sign = if amount < 0 {
        seq!['-']
    } else {
        Seq::<char>::empty()
    };
    match currency {
        Currency::JPY => seq![currency_symbol(currency)] + sign + group_thousands(nat_decimal(m)),
        _ => seq![currency_symbol(currency)] + sign + group_thousands(nat_decimal(m / 100)) + seq![
            '.',
            digit_char(((m % 100) / 10) as int),
            digit_char((m % 10) as int),
        ],
    }
}

/// Thousands grouping of `d[0..hi]`.
fn group_digits(d: &Vec<char>, hi: usize) -> (r: Vec<char>)
    requires
        hi <= d.len(),
    ensures
        r@ == group_thousands(d@.subrange(0, hi as int)),
    decreases hi,
{
    if hi <= 3 {
        sub_chars(d, 0, hi)
    } else {
        let ghost whole = d@.subrange(0, hi as int);
        assert(whole.subrange(0, whole.len() - 3) =~= d@.subrange(0, hi - 3));
        let mut r = group_digits(d, hi - 3);
        r.push(',');
        r.push(d[hi - 3]);
        r.push(d[hi - 2]);
        r.push(d[hi - 1]);
        assert(r@ =~= group_thousands(d@.subrange(0, hi - 3)) + seq![','] + whole.subrange(
            whole.len() - 3,
            whole.len() as int,
        ));
        r
    }
}

/// Append the characters of `src` to `dst`.
fn append_chars(dst: &mut Vec<char>, src: &Vec<char>)
    ensures
        final(dst)@ == old(dst)@ + src@,
{
    let mut i: usize = 0;
    while i < src.len()
        invariant
            i <= src.len(),
            dst@ == old(dst)@ + src@.subrange(0, i as int),
        decreases src.len() - i,
    {
        dst.push(src[i]);
        i = i + 1;
    }
    assert(src@.subrange(0, src@.len() as int) =~= src@);
}

/// Format an amount given in minor units (yen, or cents for USD and EUR).
pub fn format_price(amount_minor: i64, currency: Currency) -> (r: String)
    ensures
        r@ == price_text(amount_minor as int, currency),
{
    let m: u64 = if amount_minor < 0 {
        ((-(amount_minor + 1)) as u64) + 1
    } else {
        amount_minor as u64
    };
    let mut out: Vec<char> = Vec::new();
    let sym = match currency {
        Currency::JPY => '¥',
        Currency::USD => '$',
        Currency::EUR => '€',
    };
    out.push(sym);
    if amount_minor < 0 {
        out.push('-');
    }
    let ghost head = out@;
    match currency {
        Currency::JPY => {
            let digits = u64_decimal(m);
            let grouped = group_digits(&digits, digits.len());
            assert(digits@.subrange(0, digits@.len() as int) =~= digits@);
            append_chars(&mut out, &grouped);
        },
        _ => {
            let digits = u64_decimal(m / 100);
            let grouped = group_digits(&digits, digits.len());
            assert(digits@.subrange(0, digits@.len() as int) =~= digits@);
            append_chars(&mut out, &grouped);
            out.push('.');
            out.push(digit_to_char(((m % 100) / 10) as u32));
            out.push(digit_to_char((m % 10) as u32));
        },
    }
    assert(out@ =~= price_text(amount_minor as int, currency));
    string_from_chars(&out)
}

/// Trend of a price series from its first to its last price: more than 1 %
/// up is increasing, more than 1 % down is decreasing, anything else (and an
/// empty series, or a first price of zero) is stable.
pub open spec fn price_trend_spec(first: int, last: int) -> PriceTrend {
    if first == 0 {
        PriceTrend::Stable
    } else if (first > 0 && 100 * (last - first) > first) || (first < 0 && 100 * (last - first) < first) {
        PriceTrend::Increasing
    } else if (first > 0 && 100 * (last - first) < -first) || (first < 0 && 100 * (last - first)
        > -first) {
        PriceTrend::Decreasing
    } else {
        PriceTrend::Stable
    }
}

/// Trend of `(timestamp, price)` pairs, judged on the first and last price.
pub fn calculate_price_trend(prices: &[(i64, i64)]) -> (t: PriceTrend)
    ensures
        prices@.len() == 0 ==> t == PriceTrend::Stable,
        prices@.len() > 0 ==> t == price_trend_spec(prices@[0].1 as int, prices@.last().1 as int),
{
    if prices.len() == 0 {
        return PriceTrend::Stable;
    }
    let first = prices[0].1 as i128;
    let last = prices[prices.len() - 1].1 as i128;
    if first == 0 {
        return PriceTrend::Stable;
    }
    let diff = 100 * (last - first);
    if (first > 0 && diff > first) || (first < 0 && diff < first) {
        PriceTrend::Increasing
    } else if (first > 0 && diff < -first) || (first < 0 && diff > -first) {
        PriceTrend::Decreasing
    } else {
        PriceTrend::Stable
    }
}

} // verus!
