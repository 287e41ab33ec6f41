//! Turning the text read from a receipt into a shop, items, totals and a
//! date, and matching items to known products. Amounts are in hundredths;
//! confidences and scores in thousandths.
use vstd::prelude::*;
use crate::models::{same_product, Product, ReceiptItem};
use crate::ocr::text_extractor::TextExtractionResult;
use crate::ocr::OcrError;
use crate::scanner::product_matcher::common_words;
use crate::search::engine::{word_strings, words};
use crate::table::{holds_string, views_of, Record};
use crate::text::{
    all_whitespace, chars_of, contains_seq, is_blank, lines_of, owned, str_contains, str_eq, text_lines, to_lowercase,
    trim_str, trimmed, unicode_to_lowercase,
};
use crate::utils::numbers::{all_digit_chars, char_digit_value, digit_val, digits_value, digits_value_upto, field_end};
use crate::utils::validation::{group_views, regex_capture_groups, regex_captures, regex_compiles, regex_is_match, regex_matches};

verus! {

broadcast use vstd::string::group_string_axioms;

/// The Unix time in seconds, read as UTC, of the date and time that
/// chrono's `NaiveDateTime::parse_from_str` finds in `text` under `format`;
/// `None` when the text does not parse.
pub uninterp spec fn naive_utc_seconds(text: Seq<char>, format: Seq<char>) -> Option<i64>;

/// Calls `chrono::NaiveDateTime::parse_from_str(text, format)` and takes the
/// Unix time in seconds of the moment read as UTC. The result depends on the
/// text and the format alone.
#[verifier::external_body]
fn parse_naive_utc(text: &str, format: &str) -> (r: Option<i64>)
    ensures
        r == naive_utc_seconds(text@, format@),
{
    chrono::NaiveDateTime::parse_from_str(text, format).ok().map(|d| d.and_utc().timestamp())
}

/// The Unix time in seconds of midnight UTC on a `year/month/day` date:
/// the date followed by ` 00:00:00`, read with `%Y/%m/%d %H:%M:%S`.
pub open spec fn date_midnight_seconds(text: Seq<char>) -> Option<i64> {
    naive_utc_seconds(text + " 00:00:00"@, "%Y/%m/%d %H:%M:%S"@)
}

/// Midnight UTC on a `year/month/day` date, in Unix seconds.
pub fn parse_receipt_date(text: &str) -> (r: Option<i64>)
    ensures
        r == date_midnight_seconds(text@),
{
    let mut at_midnight = owned(text);
    at_midnight.append(" 00:00:00");
    parse_naive_utc(at_midnight.as_str(), "%Y/%m/%d %H:%M:%S")
}

/// The pattern of an item line: a name, space, an optional currency sign
/// and an amount at the end.
pub open spec fn item_pattern() -> Seq<char> {
    "(.+?)\\s+[¥$€£]?([0-9,]+\\.?[0-9]*)$"@
}

/// The pattern of a subtotal.
pub open spec fn subtotal_pattern() -> Seq<char> {
    "(?i)(小計|小计|subtotal|sub total)\\s*[¥$€£]?([0-9,]+\\.?[0-9]*)"@
}

/// The pattern of a tax amount.
pub open spec fn tax_pattern() -> Seq<char> {
    "(?i)(税|消費税|消费税|tax|vat)\\s*[¥$€£]?([0-9,]+\\.?[0-9]*)"@
}

/// The pattern of a total.
pub open spec fn total_pattern() -> Seq<char> {
    "(?i)(合計|合计|total|grand total|final)\\s*[¥$€£]?([0-9,]+\\.?[0-9]*)"@
}

/// `s` without its commas.
pub open spec fn no_commas(s: Seq<char>) -> Seq<char>
    decreases s.len(),
{
    if s.len() == 0 {
        Seq::empty()
    } else if s.last() == ',' {
        no_commas(s.drop_last())
    } else {
        no_commas(s.drop_last()).push(s.last())
    }
}

/// Hundredths from up to the first two fraction digits.
pub open spec fn fraction_hundredths(f: Seq<char>) -> int {
    if f.len() == 0 {
        0
    } else if f.len() == 1 {
        digit_val(f[0]) * 10
    } else {
        digit_val(f[0]) * 10 + digit_val(f[1])
    }
}

/// An amount such as `1,234.5`, in hundredths: commas are dropped, and
/// what is left must be digits with at most one decimal point and at least
/// one digit. Fraction digits past the second are dropped; amounts beyond
/// `i64` are refused.
pub open spec fn amount_value(s: Seq<char>) -> Option<int> {
    let c = no_commas(s);
    let e = field_end(c, '.') as int;
    let ip = c.subrange(0, e);
    let f = if e < c.len() {
        c.subrange(e + 1, c.len() as int)
    } else {
        Seq::empty()
    };
    if all_digit_chars(ip) && all_digit_chars(f) && ip.len() + f.len() > 0 {
        let v = digits_value(ip) * 100 + fraction_hundredths(f);
        if 0 <= v <= i64::MAX {
            Some(v)
        } else {
            None
        }
    } else {
        None
    }
}

/// A line that names the shop or the receipt.
pub open spec fn header_line(l: Seq<char>) -> bool {
    let x = unicode_to_lowercase(l);
    contains_seq(x, "store"@) || contains_seq(x, "shop"@) || contains_seq(x, "mart"@) || contains_seq(
        x,
        "receipt"@,
    )
}

/// A line with a total or tax.
pub open spec fn total_line(l: Seq<char>) -> bool {
    let x = unicode_to_lowercase(l);
    contains_seq(x, "total"@) || contains_seq(x, "合計"@) || contains_seq(x, "小計"@) || contains_seq(x, "税"@)
}

/// The category an item name suggests.
pub open spec fn item_category(name: Seq<char>) -> Seq<char> {
    let x = unicode_to_lowercase(name);
    if contains_seq(x, "cola"@) || contains_seq(x, "コーラ"@) || contains_seq(x, "可乐"@) {
        "飲料"@
    } else if contains_seq(x, "chip"@) || contains_seq(x, "ポテト"@) {
        "スナック"@
    } else if contains_seq(x, "水"@) || contains_seq(x, "water"@) {
        "飲料"@
    } else {
        "その他"@
    }
}

/// How an item name is classified, by the words its lower-cased text holds:
/// any of "cola", "コーラ" or "可乐" makes it a drink; otherwise "chip" or
/// "ポテト" a snack; otherwise "水" or "water" a drink; and a name with none
/// of these words is "その他".
pub proof fn law_item_category_words(name: Seq<char>)
    ensures
        ({
            let x = unicode_to_lowercase(name);
            let cola = contains_seq(x, "cola"@) || contains_seq(x, "コーラ"@) || contains_seq(x, "可乐"@);
            let snack = contains_seq(x, "chip"@) || contains_seq(x, "ポテト"@);
            let water = contains_seq(x, "水"@) || contains_seq(x, "water"@);
            &&& contains_seq(x, "コーラ"@) ==> item_category(name) == "飲料"@
            &&& contains_seq(x, "cola"@) ==> item_category(name) == "飲料"@
            &&& contains_seq(x, "可乐"@) ==> item_category(name) == "飲料"@
            &&& !cola && snack ==> item_category(name) == "スナック"@
            &&& !cola && !snack && water ==> item_category(name) == "飲料"@
            &&& !cola && !snack && !water ==> item_category(name) == "その他"@
        }),
{
}

/// The name and amount an item line gives, if it is one.
pub open spec fn line_item(line: Seq<char>) -> Option<(Seq<char>, int)> {
    let l = trimmed(line);
    if header_line(l) || l.len() == 0 || total_line(l) {
        None
    } else {
        match regex_capture_groups(item_pattern(), l) {
            Some(g) => if g.len() > 2 && g[1] is Some && g[2] is Some {
                match amount_value(g[2]->0) {
                    Some(p) => Some((trimmed(g[1]->0), p)),
                    None => None,
                }
            } else {
                None
            },
            None => None,
        }
    }
}

/// The items of a list of lines, in order.
pub open spec fn receipt_items(lines: Seq<Seq<char>>) -> Seq<(Seq<char>, int)>
    decreases lines.len(),
{
    if lines.len() == 0 {
        Seq::empty()
    } else {
        match line_item(lines.last()) {
            Some(x) => receipt_items(lines.drop_last()).push(x),
            None => receipt_items(lines.drop_last()),
        }
    }
}

/// `v` holds the items `s`, each once, quantity one, with its category.
pub open spec fn items_are(v: Seq<ReceiptItem>, s: Seq<(Seq<char>, int)>) -> bool {
    &&& v.len() == s.len()
    &&& forall|i: int|
        0 <= i < v.len() ==> {
            &&& (#[trigger] v[i]).name@ == s[i].0
            &&& v[i].price == s[i].1
            &&& v[i].quantity == 1
            &&& v[i].category matches Some(c) && c@ == item_category(s[i].0)
        }
}

/// The amount a pattern finds last among the lines: the last line where
/// its second group is found decides (and may give no amount).
pub open spec fn total_field(lines: Seq<Seq<char>>, pattern: Seq<char>) -> Option<int>
    decreases lines.len(),
{
    if lines.len() == 0 {
        None
    } else {
        match regex_capture_groups(pattern, lines.last()) {
            Some(g) => if g.len() > 2 && g[2] is Some {
                amount_value(g[2]->0)
            } else {
                total_field(lines.drop_last(), pattern)
            },
            None => total_field(lines.drop_last(), pattern),
        }
    }
}

/// The first date found: by the first pattern, in order, that compiles,
/// finds a match, and whose match chrono reads as `year/month/day`.
pub open spec fn date_from(patterns: Seq<Seq<char>>, text: Seq<char>) -> Option<i64>
    decreases patterns.len(),
{
    if patterns.len() == 0 {
        None
    } else {
        let p = patterns[0];
        let found = match regex_capture_groups(p, text) {
            Some(g) => if g.len() > 0 && g[0] is Some {
                date_midnight_seconds(g[0]->0)
            } else {
                None
            },
            None => None,
        };
        if regex_compiles(p) && found is Some {
            found
        } else {
            date_from(patterns.drop_first(), text)
        }
    }
}

/// The first shop whose name pattern compiles and matches the text.
pub open spec fn first_store_match(p: Seq<(Seq<char>, Seq<char>)>, text: Seq<char>) -> Option<Seq<char>>
    decreases p.len(),
{
    if p.len() == 0 {
        None
    } else if regex_compiles(p[0].1) && regex_matches(p[0].1, text) {
        Some(p[0].0)
    } else {
        first_store_match(p.drop_first(), text)
    }
}

/// The shop name taken from the first line when no pattern matches.
pub open spec fn fallback_store_name(text: Seq<char>) -> Seq<char> {
    let ls = text_lines(text);
    if ls.len() > 0 && !all_whitespace(ls[0]) {
        trimmed(ls[0])
    } else {
        "Unknown Store"@
    }
}

/// Similarity, in thousandths, of an item name to a product name: 1000 when
/// equal ignoring case, 800 when one holds the other, else twice the shared
/// words over all words, at most 1000 (0 without words).
pub open spec fn name_score(item: Seq<char>, product: Seq<char>) -> int {
    let a = unicode_to_lowercase(item);
    let b = unicode_to_lowercase(product);
    if a == b {
        1000
    } else if contains_seq(a, b) || contains_seq(b, a) {
        800
    } else {
        let iw = words(a);
        let pw = words(b);
        let t = iw.len() + pw.len();
        if t == 0 {
            0
        } else {
            let s = common_words(iw, pw) * 2000 / t;
            if s > 1000 {
                1000
            } else {
                s as int
            }
        }
    }
}

/// The position of the best scoring product (the first among equals with
/// a score above zero), or -1, with its score.
pub open spec fn best_product(item: Seq<char>, products: Seq<Product>) -> (int, int)
    decreases products.len(),
{
    if products.len() == 0 {
        (-1, 0)
    } else {
        let (bi, bs) = best_product(item, products.drop_last());
        let s = name_score(item, products.last().name@);
        if s > bs {
            (products.len() - 1, s)
        } else {
            (bi, bs)
        }
    }
}

/// How well an item matched.
#[derive(Debug, Clone, Copy, PartialEq, Eq, Structural)]
pub enum MatchType {
    Exact,
    Partial,
    NoMatch,
}

/// The kind of a match with this score.
pub open spec fn match_type_for(score: int) -> MatchType {
    if score > 800 {
        MatchType::Exact
    } else if score > 500 {
        MatchType::Partial
    } else {
        MatchType::NoMatch
    }
}

/// A shop's name pattern, and the pattern of its item lines.
#[derive(Debug, Clone)]
pub struct StorePattern {
    pub name_pattern: String,
    pub item_pattern: String,
}

/// The shop a receipt is from.
#[derive(Debug, Clone)]
pub struct StoreInfo {
    pub name: String,
    pub branch: Option<String>,
    pub address: Option<String>,
    pub phone: Option<String>,
}

/// Amounts found at the foot of a receipt, in hundredths.
#[derive(Debug, Clone)]
pub struct ReceiptTotals {
    pub subtotal: Option<i64>,
    pub tax: Option<i64>,
    pub total: Option<i64>,
    pub discount: Option<i64>,
}

/// A receipt item with the product it best matches, if any.
#[derive(Debug, Clone)]
pub struct ProductMatch {
    pub receipt_item: ReceiptItem,
    pub matched_product: Option<Product>,
    pub confidence: u32,
    pub match_type: MatchType,
}

/// A parsed receipt; the date is in Unix seconds.
#[derive(Debug, Clone)]
pub struct ReceiptParseResult {
    pub store_info: StoreInfo,
    pub items: Vec<ReceiptItem>,
    pub totals: ReceiptTotals,
    pub datetime: Option<i64>,
    pub raw_text: String,
    pub confidence: u32,
    pub parsing_confidence: u32,
}

/// Known shops by name, currency signs and date patterns.
#[derive(Debug, Clone)]
pub struct ReceiptParser {
    pub store_patterns: Vec<(String, StorePattern)>,
    pub currency_patterns: Vec<String>,
    pub date_patterns: Vec<String>,
}

/// The shops as (name, name pattern) pairs.
pub open spec fn shop_patterns(v: Seq<(String, StorePattern)>) -> Seq<(Seq<char>, Seq<char>)> {
    v.map_values(|e: (String, StorePattern)| (e.0@, e.1.name_pattern@))
}

/// `info` is the shop of `text` among `shops`.
pub open spec fn store_info_is(info: StoreInfo, shops: Seq<(Seq<char>, Seq<char>)>, text: Seq<char>) -> bool {
    &&& match first_store_match(shops, text) {
        Some(n) => info.name@ == n && (info.branch matches Some(b) && b@ == "Main Branch"@),
        None => info.name@ == fallback_store_name(text) && info.branch is None,
    }
    &&& info.address is None
    &&& info.phone is None
}

/// The confidence of a parse: 0.8, a tenth more with items, a tenth more
/// with a total.
pub open spec fn parsing_confidence(has_items: bool, has_total: bool) -> int {
    800 + (if has_items {
        100int
    } else {
        0
    }) + (if has_total {
        100int
    } else {
        0
    })
}

/// All four patterns the parse needs compile.
pub open spec fn patterns_compile() -> bool {
    regex_compiles(item_pattern()) && regex_compiles(subtotal_pattern()) && regex_compiles(tax_pattern())
        && regex_compiles(total_pattern())
}

/// `res` is the parse of `text` read with confidence `confidence`, with
/// date `date` when the text gives none.
pub open spec fn parse_is(p: ReceiptParser, text: Seq<char>, confidence: u32, now: i64, res: ReceiptParseResult) -> bool {
    let lines = text_lines(text);
    &&& store_info_is(res.store_info, shop_patterns(p.store_patterns@), text)
    &&& items_are(res.items@, receipt_items(lines))
    &&& res.totals.subtotal == as_amount(total_field(lines, subtotal_pattern()))
    &&& res.totals.tax == as_amount(total_field(lines, tax_pattern()))
    &&& res.totals.total == as_amount(total_field(lines, total_pattern()))
    &&& res.totals.discount is None
    &&& res.datetime == Some(
        match date_from(views_of(p.date_patterns@), text) {
            Some(d) => d,
            None => now,
        },
    )
    &&& res.raw_text@ == text
    &&& res.confidence == confidence
    &&& res.parsing_confidence == parsing_confidence(
        receipt_items(lines).len() > 0,
        total_field(lines, total_pattern()) is Some,
    )
}

/// An optional amount as an `i64`.
pub open spec fn as_amount(o: Option<int>) -> Option<i64> {
    match o {
        Some(v) => Some(v as i64),
        None => None,
    }
}

/// `no_commas` of a longer text.
proof fn lemma_no_commas_push(s: Seq<char>, c: char)
    ensures
        no_commas(s.push(c)) == (if c == ',' {
            no_commas(s)
        } else {
            no_commas(s).push(c)
        }),
{
    assert(s.push(c).drop_last() =~= s);
}

/// The amount in a text such as `1,234.5`, in hundredths.
pub fn amount_of(s: &str) -> (r: Option<i64>)
    ensures
        match amount_value(s@) {
            Some(v) => r == Some(v as i64),
            None => r is None,
        },
{
    let cs = chars_of(s);
    let mut c: Vec<char> = Vec::new();
    let mut i: usize = 0;
    while i < cs.len()
        invariant
            cs@ == s@,
            i <= cs@.len(),
            c@ == no_commas(s@.subrange(0, i as int)),
            c@.len() <= i,
        decreases cs.len() - i,
    {
        proof {
            lemma_no_commas_push(s@.subrange(0, i as int), s@[i as int]);
            assert(s@.subrange(0, i as int).push(s@[i as int]) =~= s@.subrange(0, i + 1));
        }
        if cs[i] != ',' {
            c.push(cs[i]);
        }
        i = i + 1;
    }
    assert(s@.subrange(0, s@.len() as int) =~= s@);
    let ghost cv = c@;
    let mut e: usize = 0;
    assert(cv.subrange(0, cv.len() as int) =~= cv);
    while e < c.len() && c[e] != '.'
        invariant
            cv == c@,
            e <= cv.len(),
            forall|k: int| 0 <= k < e ==> cv[k] != '.',
            field_end(cv, '.') == e + field_end(cv.subrange(e as int, cv.len() as int), '.'),
        decreases c.len() - e,
    {
        assert(cv.subrange(e as int, cv.len() as int).drop_first() =~= cv.subrange(e + 1, cv.len() as int));
        e = e + 1;
    }
    proof {
        if e < cv.len() {
            assert(cv.subrange(e as int, cv.len() as int)[0] == '.');
        } else {
            assert(cv.subrange(e as int, cv.len() as int).len() == 0);
        }
        assert(field_end(cv, '.') == e);
    }
    let ip = crate::utils::sub_chars(&c, 0, e);
    let f = if e < c.len() {
        crate::utils::sub_chars(&c, e + 1, c.len())
    } else {
        Vec::new()
    };
    assert(f@ == (if e < cv.len() {
        cv.subrange(e + 1, cv.len() as int)
    } else {
        Seq::<char>::empty()
    }));
    let mut k: usize = 0;
    while k < ip.len()
        invariant
            cv == no_commas(s@),
            field_end(cv, '.') == e,
            e <= cv.len(),
            ip@ == cv.subrange(0, e as int),
            f@ == (if e < cv.len() {
                cv.subrange(e + 1, cv.len() as int)
            } else {
                Seq::<char>::empty()
            }),
            k <= ip@.len(),
            forall|j: int| 0 <= j < k ==> crate::text::is_digit_spec(#[trigger] ip@[j]),
        decreases ip.len() - k,
    {
        if !crate::text::is_digit(ip[k]) {
            assert(!all_digit_chars(ip@));
            return None;
        }
        k = k + 1;
    }
    let mut k2: usize = 0;
    while k2 < f.len()
        invariant
            cv == no_commas(s@),
            field_end(cv, '.') == e,
            e <= cv.len(),
            ip@ == cv.subrange(0, e as int),
            f@ == (if e < cv.len() {
                cv.subrange(e + 1, cv.len() as int)
            } else {
                Seq::<char>::empty()
            }),
            all_digit_chars(ip@),
            k2 <= f@.len(),
            forall|j: int| 0 <= j < k2 ==> crate::text::is_digit_spec(#[trigger] f@[j]),
        decreases f.len() - k2,
    {
        if !crate::text::is_digit(f[k2]) {
            assert(!all_digit_chars(f@));
            return None;
        }
        k2 = k2 + 1;
    }
    if ip.len() == 0 && f.len() == 0 {
        return None;
    }
    let whole = match digits_value_upto(&ip, 92233720368547758) {
        Some(w) => w,
        None => {
            return None;
        },
    };
    let frac: u64 = if f.len() == 0 {
        0
    } else if f.len() == 1 {
        (char_digit_value(f[0]) as u64) * 10
    } else {
        (char_digit_value(f[0]) as u64) * 10 + (char_digit_value(f[1]) as u64)
    };
    let v: u128 = (whole as u128) * 100 + (frac as u128);
    if v > 9223372036854775807 {
        return None;
    }
    Some(v as i64)
}

/// Whether a line names the shop or the receipt.
fn is_header_line(line: &str) -> (b: bool)
    ensures
        b == header_line(line@),
{
    let l = to_lowercase(line);
    let x = l.as_str();
    str_contains(x, "store") || str_contains(x, "shop") || str_contains(x, "mart") || str_contains(x, "receipt")
}

/// Whether a line holds a total or tax.
fn is_total_line(line: &str) -> (b: bool)
    ensures
        b == total_line(line@),
{
    let l = to_lowercase(line);
    let x = l.as_str();
    str_contains(x, "total") || str_contains(x, "合計") || str_contains(x, "小計") || str_contains(x, "税")
}

/// The category an item name suggests.
pub fn classify_item_category(name: &str) -> (r: String)
    ensures
        r@ == item_category(name@),
        contains_seq(unicode_to_lowercase(name@), "コーラ"@) || contains_seq(unicode_to_lowercase(name@), "cola"@)
            || contains_seq(unicode_to_lowercase(name@), "可乐"@) ==> r@ == "飲料"@,
{
    let l = to_lowercase(name);
    let x = l.as_str();
    if str_contains(x, "cola") || str_contains(x, "コーラ") || str_contains(x, "可乐") {
        owned("飲料")
    } else if str_contains(x, "chip") || str_contains(x, "ポテト") {
        owned("スナック")
    } else if str_contains(x, "水") || str_contains(x, "water") {
        owned("飲料")
    } else {
        owned("その他")
    }
}

/// The score of an item name against a product name.
pub fn calculate_match_score(item_name: &str, product_name: &str) -> (s: u32)
    ensures
        s == name_score(item_name@, product_name@),
{
    let a = to_lowercase(item_name);
    let b = to_lowercase(product_name);
    if str_eq(a.as_str(), b.as_str()) {
        return 1000;
    }
    if str_contains(a.as_str(), b.as_str()) || str_contains(b.as_str(), a.as_str()) {
        return 800;
    }
    let iw = word_strings(a.as_str());
    let pw = word_strings(b.as_str());
    let ghost iv = views_of(iw@);
    let ghost pv = views_of(pw@);
    let mut common: usize = 0;
    let mut i: usize = 0;
    while i < iw.len()
        invariant
            iv == views_of(iw@),
            pv == views_of(pw@),
            i <= iv.len(),
            common == common_words(iv.subrange(0, i as int), pv),
            common <= i,
        decreases iw.len() - i,
    {
        assert(iv.subrange(0, i + 1).drop_last() =~= iv.subrange(0, i as int));
        assert(iv.subrange(0, i + 1).last() == iw@[i as int]@);
        if holds_string(&pw, iw[i].as_str()) {
            common = common + 1;
        }
        i = i + 1;
    }
    assert(iv.subrange(0, iv.len() as int) =~= iv);
    let t = (iw.len() as u128) + (pw.len() as u128);
    if t == 0 {
        return 0;
    }
    let s = (common as u128) * 2000 / t;
    if s > 1000 {
        1000
    } else {
        s as u32
    }
}

impl Default for ReceiptParser {
    fn default() -> (r: Self)
        ensures
            shop_patterns(r.store_patterns@) == seq![
                ("FamilyMart"@, "(?i)(family\\s*mart|ファミリーマート|ファミマ)"@),
                ("7-Eleven"@, "(?i)(seven\\s*eleven|セブンイレブン|セブン)"@),
            ],
            forall|i: int| 0 <= i < 2 ==> (#[trigger] r.store_patterns@[i]).1.item_pattern@ == "(.+?)\\s+¥([0-9,]+)"@,
            views_of(r.currency_patterns@) == seq!["¥"@, "$"@, "€"@, "£"@],
            views_of(r.date_patterns@) == seq![
                "\\d{4}/\\d{1,2}/\\d{1,2}"@,
                "\\d{1,2}/\\d{1,2}/\\d{4}"@,
                "\\d{4}-\\d{1,2}-\\d{1,2}"@,
                "\\d{1,2}-\\d{1,2}-\\d{4}"@,
            ],
    {
        let mut currency: Vec<String> = Vec::new();
        currency.push(owned("¥"));
        currency.push(owned("$"));
        currency.push(owned("€"));
        currency.push(owned("£"));
        let mut dates: Vec<String> = Vec::new();
        dates.push(owned("\\d{4}/\\d{1,2}/\\d{1,2}"));
        dates.push(owned("\\d{1,2}/\\d{1,2}/\\d{4}"));
        dates.push(owned("\\d{4}-\\d{1,2}-\\d{1,2}"));
        dates.push(owned("\\d{1,2}-\\d{1,2}-\\d{4}"));
        let mut shops: Vec<(String, StorePattern)> = Vec::new();
        shops.push(
            (
                owned("FamilyMart"),
                StorePattern {
                    name_pattern: owned("(?i)(family\\s*mart|ファミリーマート|ファミマ)"),
                    item_pattern: owned("(.+?)\\s+¥([0-9,]+)"),
                },
            ),
        );
        shops.push(
            (
                owned("7-Eleven"),
                StorePattern {
                    name_pattern: owned("(?i)(seven\\s*eleven|セブンイレブン|セブン)"),
                    item_pattern: owned("(.+?)\\s+¥([0-9,]+)"),
                },
            ),
        );
        let r = ReceiptParser { store_patterns: shops, currency_patterns: currency, date_patterns: dates };
        assert(shop_patterns(r.store_patterns@) =~= seq![
            ("FamilyMart"@, "(?i)(family\\s*mart|ファミリーマート|ファミマ)"@),
            ("7-Eleven"@, "(?i)(seven\\s*eleven|セブンイレブン|セブン)"@),
        ]);
        assert(views_of(r.currency_patterns@) =~= seq!["¥"@, "$"@, "€"@, "£"@]);
        assert(views_of(r.date_patterns@) =~= seq![
            "\\d{4}/\\d{1,2}/\\d{1,2}"@,
            "\\d{1,2}/\\d{1,2}/\\d{4}"@,
            "\\d{4}-\\d{1,2}-\\d{1,2}"@,
            "\\d{1,2}-\\d{1,2}-\\d{4}"@,
        ]);
        r
    }
}

impl ReceiptParser {
    /// The parser for FamilyMart and 7-Eleven receipts, the four currency
    /// signs and four date layouts.
    pub fn new() -> (r: Self)
        ensures
            shop_patterns(r.store_patterns@) == seq![
                ("FamilyMart"@, "(?i)(family\\s*mart|ファミリーマート|ファミマ)"@),
                ("7-Eleven"@, "(?i)(seven\\s*eleven|セブンイレブン|セブン)"@),
            ],
            views_of(r.currency_patterns@) == seq!["¥"@, "$"@, "€"@, "£"@],
            views_of(r.date_patterns@) == seq![
                "\\d{4}/\\d{1,2}/\\d{1,2}"@,
                "\\d{1,2}/\\d{1,2}/\\d{4}"@,
                "\\d{4}-\\d{1,2}-\\d{1,2}"@,
                "\\d{1,2}-\\d{1,2}-\\d{4}"@,
            ],
    {
        Self::default()
    }

    /// The shop of a receipt text: the first known shop whose pattern
    /// matches, else the first line trimmed, else "Unknown Store".
    fn extract_store_info(&self, text: &str) -> (r: StoreInfo)
        ensures
            store_info_is(r, shop_patterns(self.store_patterns@), text@),
    {
        let ghost sp = shop_patterns(self.store_patterns@);
        let mut i: usize = 0;
        assert(sp.subrange(0, sp.len() as int) =~= sp);
        while i < self.store_patterns.len()
            invariant
                sp == shop_patterns(self.store_patterns@),
                i <= sp.len(),
                first_store_match(sp, text@) == first_store_match(sp.subrange(i as int, sp.len() as int), text@),
            decreases self.store_patterns.len() - i,
        {
            let ghost rest = sp.subrange(i as int, sp.len() as int);
            assert(rest[0] == sp[i as int]);
            assert(rest.drop_first() =~= sp.subrange(i + 1, sp.len() as int));
            let m = regex_is_match(self.store_patterns[i].1.name_pattern.as_str(), text);
            if m == Some(true) {
                return StoreInfo {
                    name: self.store_patterns[i].0.clone(),
                    branch: Some(owned("Main Branch")),
                    address: None,
                    phone: None,
                };
            }
            i = i + 1;
        }
        assert(sp.subrange(sp.len() as int, sp.len() as int) =~= Seq::<(Seq<char>, Seq<char>)>::empty());
        let lines = lines_of(text);
        let ghost ls = lines@.map_values(|l: String| l@);
        if lines.len() > 0 && !is_blank(lines[0].as_str()) {
            assert(ls[0] == lines@[0]@);
            StoreInfo { name: trim_str(lines[0].as_str()), branch: None, address: None, phone: None }
        } else {
            proof {
                if ls.len() > 0 {
                    assert(ls[0] == lines@[0]@);
                }
            }
            StoreInfo { name: owned("Unknown Store"), branch: None, address: None, phone: None }
        }
    }

    /// The item of one line, if it is one.
    fn item_of_line(line: &str) -> (r: Result<Option<ReceiptItem>, OcrError>)
        ensures
            regex_compiles(item_pattern()) ==> (r matches Ok(o) && match line_item(line@) {
                Some(x) => o matches Some(it) && it.name@ == x.0 && it.price == x.1 && it.quantity == 1
                    && (it.category matches Some(c) && c@ == item_category(x.0)),
                None => o is None,
            }),
            !regex_compiles(item_pattern()) ==> r is Err,
    {
        let l = trim_str(line);
        if is_header_line(l.as_str()) || l.as_str().unicode_len() == 0 || is_total_line(l.as_str()) {
            if regex_is_match("(.+?)\\s+[¥$€£]?([0-9,]+\\.?[0-9]*)$", "").is_none() {
                return Err(OcrError::ReceiptParsing(owned("invalid item pattern")));
            }
            return Ok(None);
        }
        let caps = match regex_captures("(.+?)\\s+[¥$€£]?([0-9,]+\\.?[0-9]*)$", l.as_str()) {
            Some(c) => c,
            None => {
                return Err(OcrError::ReceiptParsing(owned("invalid item pattern")));
            },
        };
        let g = match caps {
            Some(g) => g,
            None => {
                return Ok(None);
            },
        };
        let ghost gv = group_views(g@);
        assert(gv.len() == g@.len());
        if g.len() <= 2 {
            return Ok(None);
        }
        assert(gv[1] == (match g@[1] {
            Some(x) => Some(x@),
            None => None,
        }));
        assert(gv[2] == (match g@[2] {
            Some(x) => Some(x@),
            None => None,
        }));
        let (name_part, amount_part) = match (&g[1], &g[2]) {
            (Some(a), Some(b)) => (a, b),
            _ => {
                return Ok(None);
            },
        };
        match amount_of(amount_part.as_str()) {
            Some(p) => {
                let name = trim_str(name_part.as_str());
                let category = classify_item_category(name.as_str());
                Ok(Some(ReceiptItem { name, price: p, quantity: 1, category: Some(category) }))
            },
            None => Ok(None),
        }
    }

    /// The items of a receipt text, in order; refused when the item
    /// pattern does not compile.
    fn extract_items(&self, text: &str) -> (r: Result<Vec<ReceiptItem>, OcrError>)
        ensures
            regex_compiles(item_pattern()) ==> (r matches Ok(v) && items_are(v@, receipt_items(text_lines(text@)))),
            !regex_compiles(item_pattern()) ==> r is Err,
    {
        if regex_is_match("(.+?)\\s+[¥$€£]?([0-9,]+\\.?[0-9]*)$", "").is_none() {
            return Err(OcrError::ReceiptParsing(owned("invalid item pattern")));
        }
        let lines = lines_of(text);
        let ghost ls = lines@.map_values(|l: String| l@);
        let mut items: Vec<ReceiptItem> = Vec::new();
        let mut i: usize = 0;
        while i < lines.len()
            invariant
                regex_compiles(item_pattern()),
                ls == lines@.map_values(|l: String| l@),
                ls == text_lines(text@),
                i <= ls.len(),
                items_are(items@, receipt_items(ls.subrange(0, i as int))),
            decreases lines.len() - i,
        {
            assert(ls.subrange(0, i + 1).drop_last() =~= ls.subrange(0, i as int));
            assert(ls.subrange(0, i + 1).last() == lines@[i as int]@);
            let ghost before = items@;
            match Self::item_of_line(lines[i].as_str()) {
                Ok(Some(it)) => {
                    items.push(it);
                    assert(items_are(items@, receipt_items(ls.subrange(0, i + 1)))) by {
                        assert forall|k: int| 0 <= k < items@.len() - 1 implies items@[k] == before[k] by {}
                    }
                },
                Ok(None) => {},
                Err(e) => {
                    return Err(e);
                },
            }
            i = i + 1;
        }
        assert(ls.subrange(0, ls.len() as int) =~= ls);
        Ok(items)
    }

    /// The amount a total pattern finds last among the lines.
    fn total_of(lines: &Vec<String>, pattern: &str) -> (r: Result<Option<i64>, OcrError>)
        ensures
            regex_compiles(pattern@) ==> r == Ok::<Option<i64>, OcrError>(
                as_amount(total_field(lines@.map_values(|l: String| l@), pattern@)),
            ),
            !regex_compiles(pattern@) ==> r is Err,
    {
        if regex_is_match(pattern, "").is_none() {
            return Err(OcrError::ReceiptParsing(owned("invalid total pattern")));
        }
        let ghost ls = lines@.map_values(|l: String| l@);
        let mut found: Option<i64> = None;
        let mut i: usize = 0;
        while i < lines.len()
            invariant
                regex_compiles(pattern@),
                ls == lines@.map_values(|l: String| l@),
                i <= ls.len(),
                found == as_amount(total_field(ls.subrange(0, i as int), pattern@)),
            decreases lines.len() - i,
        {
            assert(ls.subrange(0, i + 1).drop_last() =~= ls.subrange(0, i as int));
            assert(ls.subrange(0, i + 1).last() == lines@[i as int]@);
            match regex_captures(pattern, lines[i].as_str()) {
                Some(Some(g)) => {
                    if g.len() > 2 {
                        match &g[2] {
                            Some(a) => {
                                found = amount_of(a.as_str());
                            },
                            None => {},
                        }
                    }
                },
                _ => {},
            }
            i = i + 1;
        }
        assert(ls.subrange(0, ls.len() as int) =~= ls);
        Ok(found)
    }

    /// The subtotal, tax and total of a receipt text; refused when a
    /// pattern does not compile.
    fn extract_totals(&self, text: &str) -> (r: Result<ReceiptTotals, OcrError>)
        ensures
            (regex_compiles(subtotal_pattern()) && regex_compiles(tax_pattern()) && regex_compiles(total_pattern()))
                ==> (r matches Ok(t) && t.subtotal == as_amount(total_field(text_lines(text@), subtotal_pattern())) && t.tax == as_amount(total_field(text_lines(text@), tax_pattern())) && t.total
                == as_amount(total_field(text_lines(text@), total_pattern())) && t.discount is None),
            !(regex_compiles(subtotal_pattern()) && regex_compiles(tax_pattern()) && regex_compiles(total_pattern()))
                ==> r is Err,
    {
        let lines = lines_of(text);
        let subtotal = Self::total_of(&lines, "(?i)(小計|小计|subtotal|sub total)\\s*[¥$€£]?([0-9,]+\\.?[0-9]*)")?;
        let tax = Self::total_of(&lines, "(?i)(税|消費税|消费税|tax|vat)\\s*[¥$€£]?([0-9,]+\\.?[0-9]*)")?;
        let total = Self::total_of(
            &lines,
            "(?i)(合計|合计|total|grand total|final)\\s*[¥$€£]?([0-9,]+\\.?[0-9]*)",
        )?;
        Ok(ReceiptTotals { subtotal, tax, total, discount: None })
    }

    /// The date of a receipt text, or `now` when none is found.
    fn extract_datetime_at(&self, text: &str, now: i64) -> (r: Option<i64>)
        ensures
            r == Some(
                match date_from(views_of(self.date_patterns@), text@) {
                    Some(d) => d,
                    None => now,
                },
            ),
    {
        let ghost dp = views_of(self.date_patterns@);
        let mut i: usize = 0;
        assert(dp.subrange(0, dp.len() as int) =~= dp);
        while i < self.date_patterns.len()
            invariant
                dp == views_of(self.date_patterns@),
                i <= dp.len(),
                date_from(dp, text@) == date_from(dp.subrange(i as int, dp.len() as int), text@),
            decreases self.date_patterns.len() - i,
        {
            let ghost rest = dp.subrange(i as int, dp.len() as int);
            assert(rest[0] == dp[i as int]);
            assert(rest.drop_first() =~= dp.subrange(i + 1, dp.len() as int));
            match regex_captures(self.date_patterns[i].as_str(), text) {
                Some(Some(g)) => {
                    if g.len() > 0 {
                        match &g[0] {
                            Some(m) => {
                                match parse_receipt_date(m.as_str()) {
                                    Some(t) => {
                                        return Some(t);
                                    },
                                    None => {},
                                }
                            },
                            None => {},
                        }
                    }
                },
                _ => {},
            }
            i = i + 1;
        }
        assert(dp.subrange(dp.len() as int, dp.len() as int) =~= Seq::<Seq<char>>::empty());
        Some(now)
    }

    /// Parse the text read from a receipt, dating it `now` when the text
    /// gives no date; refused when a pattern does not compile.
    pub fn parse_receipt_at(&self, extraction_result: &TextExtractionResult, now: i64) -> (r: Result<
        ReceiptParseResult,
        OcrError,
    >)
        ensures
            patterns_compile() ==> (r matches Ok(res) && parse_is(
                *self,
                extraction_result.text@,
                extraction_result.confidence,
                now,
                res,
            )),
            !patterns_compile() ==> (r matches Err(OcrError::ReceiptParsing(_))),
    {
        let text = extraction_result.text.as_str();
        let store_info = self.extract_store_info(text);
        let items = match self.extract_items(text) {
            Ok(v) => v,
            Err(_) => {
                return Err(OcrError::ReceiptParsing(owned("invalid item pattern")));
            },
        };
        let totals = match self.extract_totals(text) {
            Ok(t) => t,
            Err(_) => {
                return Err(OcrError::ReceiptParsing(owned("invalid total pattern")));
            },
        };
        let datetime = self.extract_datetime_at(text, now);
        let parsing_confidence = Self::calculate_parsing_confidence(&items, &totals);
        Ok(ReceiptParseResult {
            store_info,
            items,
            totals,
            datetime,
            raw_text: extraction_result.text.clone(),
            confidence: extraction_result.confidence,
            parsing_confidence,
        })
    }

    /// Parse the text read from a receipt, dating it now when the text
    /// gives no date.
    pub fn parse_receipt(&self, extraction_result: &TextExtractionResult) -> (r: Result<ReceiptParseResult, OcrError>)
        ensures
            patterns_compile() ==> r is Ok && exists|now: i64|
                #[trigger] parse_is(*self, extraction_result.text@, extraction_result.confidence, now, r->Ok_0),
            !patterns_compile() ==> (r matches Err(OcrError::ReceiptParsing(_))),
    {
        let now = crate::error::now_unix_seconds();
        self.parse_receipt_at(extraction_result, now)
    }

    /// Each item with the product it best matches.
    pub fn match_products(&self, items: &[ReceiptItem], products: &[Product]) -> (r: Result<Vec<ProductMatch>, OcrError>)
        ensures
            r matches Ok(v) && v@.len() == items@.len() && forall|i: int|
                0 <= i < v@.len() ==> {
                    let (bi, bs) = best_product(items@[i].name@, products@);
                    &&& (#[trigger] v@[i]).receipt_item == items@[i]
                    &&& v@[i].confidence == bs
                    &&& v@[i].match_type == match_type_for(bs)
                    &&& (bi < 0 ==> v@[i].matched_product is None)
                    &&& (bi >= 0 ==> (v@[i].matched_product matches Some(p) && same_product(p, products@[bi])))
                },
    {
        let mut out: Vec<ProductMatch> = Vec::new();
        let mut i: usize = 0;
        while i < items.len()
            invariant
                i <= items@.len(),
                out@.len() == i,
                forall|k: int|
                    0 <= k < i ==> {
                        let (bi, bs) = best_product(items@[k].name@, products@);
                        &&& (#[trigger] out@[k]).receipt_item == items@[k]
                        &&& out@[k].confidence == bs
                        &&& out@[k].match_type == match_type_for(bs)
                        &&& (bi < 0 ==> out@[k].matched_product is None)
                        &&& (bi >= 0 ==> (out@[k].matched_product matches Some(p) && same_product(p, products@[bi])))
                    },
            decreases items.len() - i,
        {
            out.push(Self::find_best_product_match(&items[i], products));
            i = i + 1;
        }
        Ok(out)
    }

    /// The best matching product for an item.
    fn find_best_product_match(item: &ReceiptItem, products: &[Product]) -> (r: ProductMatch)
        ensures
            ({
                let (bi, bs) = best_product(item.name@, products@);
                &&& r.receipt_item == *item
                &&& r.confidence == bs
                &&& r.match_type == match_type_for(bs)
                &&& (bi < 0 ==> r.matched_product is None)
                &&& (bi >= 0 ==> (r.matched_product matches Some(p) && same_product(p, products@[bi])))
            }),
    {
        let mut best_score: u32 = 0;
        let mut best: Option<usize> = None;
        let mut i: usize = 0;
        while i < products.len()
            invariant
                i <= products@.len(),
                best_product(item.name@, products@.subrange(0, i as int)).1 == best_score,
                best_score <= 1000,
                match best {
                    Some(b) => b < i && best_product(item.name@, products@.subrange(0, i as int)).0 == b,
                    None => best_product(item.name@, products@.subrange(0, i as int)).0 == -1,
                },
            decreases products.len() - i,
        {
            assert(products@.subrange(0, i + 1).drop_last() =~= products@.subrange(0, i as int));
            assert(products@.subrange(0, i + 1).last() == products@[i as int]);
            let s = calculate_match_score(item.name.as_str(), products[i].name.as_str());
            proof {
                lemma_name_score_range(item.name@, products@[i as int].name@);
            }
            if s > best_score {
                best_score = s;
                best = Some(i);
            }
            i = i + 1;
        }
        assert(products@.subrange(0, products@.len() as int) =~= products@);
        let mt = if best_score > 800 {
            MatchType::Exact
        } else if best_score > 500 {
            MatchType::Partial
        } else {
            MatchType::NoMatch
        };
        let matched = match best {
            Some(b) => Some(products[b].copy()),
            None => None,
        };
        ProductMatch { receipt_item: item.duplicate(), matched_product: matched, confidence: best_score, match_type: mt }
    }

    /// The confidence of a parse from what it found.
    fn calculate_parsing_confidence(items: &Vec<ReceiptItem>, totals: &ReceiptTotals) -> (c: u32)
        ensures
            c == parsing_confidence(items@.len() > 0, totals.total is Some),
    {
        let mut c: u32 = 800;
        if items.len() > 0 {
            c = c + 100;
        }
        if totals.total.is_some() {
            c = c + 100;
        }
        c
    }
}

/// Scores stay within 0..=1000.
proof fn lemma_name_score_range(item: Seq<char>, product: Seq<char>)
    ensures
        0 <= name_score(item, product) <= 1000,
{
}

} // verus!
