//! Finding the product a scanned code names, and searching the known codes
//! by name or code. Similarities are in thousandths.
use vstd::prelude::*;
use crate::models::{copy_strings, same_product, Product};
use crate::ranking::{rank_by_count, ranked_top};
use crate::scanner::barcode_decoder::ScanResult;
use crate::scanner::models::BarcodeType;
use crate::scanner::ScannerError;
use crate::search::engine::{word_strings, words};
use crate::table::{get_copy, has_key, holds_string, key_index, keys_distinct, lookup_key, put, put_record, take,
    drop_key, views_of, Record};
use crate::text::{
    byte_len, chars_of, contains_seq, is_digit, owned, str_contains, str_eq, string_from_chars, to_lowercase,
    unicode_to_lowercase, utf8_len, starts_with_chars,
};
use crate::utils::crypto::uuid_text;
use crate::utils::numbers::{all_digit_chars, char_digit_value, check_digit, digit_val, weighted_check, weighted_sum};

verus! {

broadcast use vstd::string::group_string_axioms;

/// How close a search hit is.
#[derive(Debug, Clone, Copy, PartialEq, Eq, Structural)]
pub enum ProductMatchType {
    Exact,
    High,
    Partial,
}

/// A search hit: the product, its similarity in thousandths and its kind.
#[derive(Debug, Clone)]
pub struct ProductMatch {
    pub product: Product,
    pub similarity: u32,
    pub match_type: ProductMatchType,
}

/// A product known under a code.
#[derive(Debug, Clone)]
pub struct CachedProduct {
    pub barcode: String,
    pub product: Product,
}

impl Record for CachedProduct {
    open spec fn key(&self) -> Seq<char> {
        self.barcode@
    }

    open spec fn same(&self, other: &Self) -> bool {
        self.barcode@ == other.barcode@ && same_product(self.product, other.product)
    }

    fn key_str(&self) -> (r: &str) {
        self.barcode.as_str()
    }

    fn duplicate(&self) -> (r: Self) {
        CachedProduct { barcode: self.barcode.clone(), product: self.product.copy() }
    }
}

/// `s` starts with `p`.
pub open spec fn begins_with(s: Seq<char>, p: Seq<char>) -> bool {
    p.len() <= s.len() && s.subrange(0, p.len() as int) == p
}

/// A check digit over the first `n - 1` digits, weighted `w_odd` at odd and
/// `w_even` at even positions, equals the last digit.
pub open spec fn check_digit_holds(s: Seq<char>, w_odd: int, w_even: int) -> bool {
    check_digit(weighted_sum(s.drop_last(), w_odd, w_even)) == digit_val(s.last())
}

/// Thirteen ASCII digits.
pub open spec fn thirteen_digits(s: Seq<char>) -> bool {
    s.len() == 13 && all_digit_chars(s)
}

/// Eight ASCII digits.
pub open spec fn eight_digits(s: Seq<char>) -> bool {
    s.len() == 8 && all_digit_chars(s)
}

/// Whether a code is well-formed: EAN-13 and EAN-8 codes by their check
/// digit, any other code of 1 to 1000 bytes.
pub open spec fn valid_code(s: Seq<char>) -> bool {
    if thirteen_digits(s) {
        check_digit_holds(s, 1, 3)
    } else if eight_digits(s) {
        check_digit_holds(s, 3, 1)
    } else {
        1 <= utf8_len(s) <= 1000
    }
}

/// One more digit of a weighted sum.
proof fn lemma_weighted_step(s: Seq<char>, n: int, w_odd: int, w_even: int)
    requires
        0 < n <= s.len(),
    ensures
        weighted_sum(s.subrange(0, n), w_odd, w_even) == weighted_sum(s.subrange(0, n - 1), w_odd, w_even)
            + digit_val(s[n - 1]) * (if n % 2 == 1 {
            w_odd
        } else {
            w_even
        }),
{
    assert(s.subrange(0, n).drop_last() =~= s.subrange(0, n - 1));
}

/// A check digit fits a sum exactly when the sum and the digit together are a
/// multiple of ten.
proof fn lemma_check_digit_fits(sum: int, d: int)
    requires
        sum >= 0,
        0 <= d <= 9,
    ensures
        check_digit(sum) == d <==> (sum + d) % 10 == 0,
{
}

/// An eight-digit code is valid exactly when it passes the EAN-8 check:
/// the digits weighted 3, 1, 3, 1, 3, 1, 3 and the check digit 1 add up to
/// a multiple of ten.
pub proof fn law_ean8_check(s: Seq<char>)
    requires
        s.len() == 8,
        all_digit_chars(s),
    ensures
        valid_code(s) <==> (3 * digit_val(s[0]) + digit_val(s[1]) + 3 * digit_val(s[2]) + digit_val(s[3]) + 3
            * digit_val(s[4]) + digit_val(s[5]) + 3 * digit_val(s[6]) + digit_val(s[7])) % 10 == 0,
{
    assert(crate::text::is_digit_spec(s[0]) && crate::text::is_digit_spec(s[1]) && crate::text::is_digit_spec(s[2]) && crate::text::is_digit_spec(s[3]));
    assert(crate::text::is_digit_spec(s[4]) && crate::text::is_digit_spec(s[5]) && crate::text::is_digit_spec(s[6]) && crate::text::is_digit_spec(s[7]));
    assert(s.subrange(0, 0) =~= Seq::<char>::empty());
    lemma_weighted_step(s, 1, 3, 1);
    lemma_weighted_step(s, 2, 3, 1);
    lemma_weighted_step(s, 3, 3, 1);
    lemma_weighted_step(s, 4, 3, 1);
    lemma_weighted_step(s, 5, 3, 1);
    lemma_weighted_step(s, 6, 3, 1);
    lemma_weighted_step(s, 7, 3, 1);
    assert(s.drop_last() =~= s.subrange(0, 7));
    assert(s.last() == s[7]);
    let sum = weighted_sum(s.drop_last(), 3, 1);
    assert(sum == 3 * digit_val(s[0]) + digit_val(s[1]) + 3 * digit_val(s[2]) + digit_val(s[3]) + 3 * digit_val(s[4])
        + digit_val(s[5]) + 3 * digit_val(s[6]));
    lemma_check_digit_fits(sum, digit_val(s[7]));
}

/// A code that is neither thirteen nor eight ASCII digits is valid exactly
/// when it takes 1 to 1000 bytes.
pub proof fn law_other_codes(s: Seq<char>)
    requires
        !(s.len() == 13 && all_digit_chars(s)),
        !(s.len() == 8 && all_digit_chars(s)),
    ensures
        valid_code(s) <==> 1 <= utf8_len(s) <= 1000,
{
}

/// A thirteen-digit code is valid exactly when it passes the EAN-13 check:
/// the digits weighted 1, 3, 1, 3, ... and the check digit 1 add up to a
/// multiple of ten.
pub proof fn law_ean13_check(s: Seq<char>)
    requires
        s.len() == 13,
        all_digit_chars(s),
    ensures
        valid_code(s) <==> (digit_val(s[0]) + 3 * digit_val(s[1]) + digit_val(s[2]) + 3 * digit_val(s[3])
            + digit_val(s[4]) + 3 * digit_val(s[5]) + digit_val(s[6]) + 3 * digit_val(s[7]) + digit_val(s[8]) + 3
            * digit_val(s[9]) + digit_val(s[10]) + 3 * digit_val(s[11]) + digit_val(s[12])) % 10 == 0,
{
    assert forall|i: int| 0 <= i < 13 implies 0 <= digit_val(#[trigger] s[i]) <= 9 by {
        assert(crate::text::is_digit_spec(s[i]));
    }
    assert(s.subrange(0, 0) =~= Seq::<char>::empty());
    lemma_weighted_step(s, 1, 1, 3);
    lemma_weighted_step(s, 2, 1, 3);
    lemma_weighted_step(s, 3, 1, 3);
    lemma_weighted_step(s, 4, 1, 3);
    lemma_weighted_step(s, 5, 1, 3);
    lemma_weighted_step(s, 6, 1, 3);
    lemma_weighted_step(s, 7, 1, 3);
    lemma_weighted_step(s, 8, 1, 3);
    lemma_weighted_step(s, 9, 1, 3);
    lemma_weighted_step(s, 10, 1, 3);
    lemma_weighted_step(s, 11, 1, 3);
    lemma_weighted_step(s, 12, 1, 3);
    assert(s.drop_last() =~= s.subrange(0, 12));
    assert(s.last() == s[12]);
    let sum = weighted_sum(s.drop_last(), 1, 3);
    assert(sum == digit_val(s[0]) + 3 * digit_val(s[1]) + digit_val(s[2]) + 3 * digit_val(s[3]) + digit_val(s[4]) + 3
        * digit_val(s[5]) + digit_val(s[6]) + 3 * digit_val(s[7]) + digit_val(s[8]) + 3 * digit_val(s[9])
        + digit_val(s[10]) + 3 * digit_val(s[11]));
    lemma_check_digit_fits(sum, digit_val(s[12]));
}

/// The kind of a code, judged from its text.
pub open spec fn kind_of_code(s: Seq<char>) -> BarcodeType {
    if thirteen_digits(s) {
        BarcodeType::Ean13
    } else if eight_digits(s) {
        BarcodeType::Ean8
    } else if begins_with(s, "http"@) || contains_seq(s, "://"@) {
        BarcodeType::QrCode
    } else if 3 <= utf8_len(s) <= 20 {
        BarcodeType::Code128
    } else {
        BarcodeType::Unknown
    }
}

/// The name and category given to a product made up for a code.
pub open spec fn made_up_entry(s: Seq<char>) -> (Seq<char>, Seq<char>) {
    match kind_of_code(s) {
        BarcodeType::Ean13 | BarcodeType::Ean8 => {
            let prefix = s.subrange(0, 3);
            let middle = s.subrange(3, 8);
            if prefix == "490"@ || prefix == "491"@ || prefix == "492"@ {
                ("Japanese Product "@ + middle, "Food"@)
            } else if prefix == "123"@ {
                ("Beverage "@ + middle, "Drinks"@)
            } else if prefix == "789"@ {
                ("Snack "@ + middle, "Snacks"@)
            } else {
                ("Product "@ + s.subrange(0, 6), "General"@)
            }
        },
        BarcodeType::Code128 => if begins_with(s, "PROD"@) {
            ("Product "@ + s.subrange(4, s.len() as int), "Manufactured"@)
        } else {
            ("Item "@ + s, "General"@)
        },
        BarcodeType::QrCode => if begins_with(s, "http"@) {
            ("Online Product"@, "Digital"@)
        } else {
            ("QR Product "@ + s, "QR Code"@)
        },
        BarcodeType::Unknown => ("Unknown Product "@ + s, "Unknown"@),
    }
}

/// `p` is the product made up for code `s`: a fresh id, the name and
/// category of `made_up_entry`, a description naming the code, the code,
/// and no images, prices or tags.
pub open spec fn made_up_for(p: Product, s: Seq<char>) -> bool {
    &&& uuid_text(p.id@)
    &&& p.name@ == made_up_entry(s).0
    &&& p.category@ == made_up_entry(s).1
    &&& p.description@ == "Auto-generated product for barcode "@ + s
    &&& p.barcode matches Some(b) && b@ == s
    &&& p.images@.len() == 0
    &&& p.prices@.len() == 0
    &&& p.tags@.len() == 0
}

/// How many query words also occur among the name words (with repeats in
/// the query counted each time).
pub open spec fn common_words(q: Seq<Seq<char>>, n: Seq<Seq<char>>) -> nat
    decreases q.len(),
{
    if q.len() == 0 {
        0
    } else {
        common_words(q.drop_last(), n) + if n.contains(q.last()) {
            1nat
        } else {
            0
        }
    }
}

/// Similarity, in thousandths, of a query to a product name and code: 1000
/// for the code itself, 950 for the name (ignoring case), 800 when the name
/// holds the query, 750 when the query holds the name, 700 when one code
/// holds the other, else twice the shared words over all words.
pub open spec fn similarity(query: Seq<char>, name: Seq<char>, code: Seq<char>) -> int {
    let ql = unicode_to_lowercase(query);
    let nl = unicode_to_lowercase(name);
    if query == code {
        1000
    } else if ql == nl {
        950
    } else if contains_seq(nl, ql) {
        800
    } else if contains_seq(ql, nl) {
        750
    } else if contains_seq(code, query) || contains_seq(query, code) {
        700
    } else {
        let qw = words(ql);
        let nw = words(nl);
        let c = common_words(qw, nw);
        if c > 0 {
            (c * 2000 / (qw.len() + nw.len())) as int
        } else {
            0
        }
    }
}

/// The kind of a hit with this similarity.
pub open spec fn match_kind(sim: int) -> ProductMatchType {
    if sim > 950 {
        ProductMatchType::Exact
    } else if sim > 800 {
        ProductMatchType::High
    } else {
        ProductMatchType::Partial
    }
}

/// The similarity of a query to a known product.
pub open spec fn entry_similarity(query: Seq<char>, e: CachedProduct) -> int {
    similarity(query, e.product.name@, e.barcode@)
}

/// The known products at least `threshold` similar to the query, in order.
pub open spec fn matching(c: Seq<CachedProduct>, query: Seq<char>, threshold: int) -> Seq<CachedProduct>
    decreases c.len(),
{
    if c.len() == 0 {
        Seq::empty()
    } else {
        let rest = matching(c.drop_last(), query, threshold);
        if entry_similarity(query, c.last()) >= threshold {
            rest.push(c.last())
        } else {
            rest
        }
    }
}

/// The similarities of a list of known products to the query.
pub open spec fn similarities(m: Seq<CachedProduct>, query: Seq<char>) -> Seq<i128> {
    m.map_values(|e: CachedProduct| entry_similarity(query, e) as i128)
}

/// `v` is the list of search hits for `query` among the known products
/// `c` at threshold `thr`, in the ranking order `order`.
pub open spec fn hits_in_order(c: Seq<CachedProduct>, query: Seq<char>, thr: int, v: Seq<ProductMatch>, order: Seq<usize>) -> bool {
    &&& ranked_top(similarities(matching(c, query, thr), query), matching(c, query, thr).len() as int, order)
    &&& v.len() == order.len()
    &&& v.len() == matching(c, query, thr).len()
    &&& forall|k: int|
        0 <= k < v.len() ==> {
            &&& same_product((#[trigger] v[k]).product, matching(c, query, thr)[order[k] as int].product)
            &&& v[k].similarity == entry_similarity(query, matching(c, query, thr)[order[k] as int])
            &&& v[k].match_type == match_kind(v[k].similarity as int)
        }
}

/// Known products by code, and the similarity a search hit needs.
pub struct ProductMatcher {
    barcode_cache: Vec<CachedProduct>,
    similarity_threshold: u32,
}

impl ProductMatcher {
    /// The known products, in the order they were added.
    pub closed spec fn cache(&self) -> Seq<CachedProduct> {
        self.barcode_cache@
    }

    /// The similarity a search hit needs, in thousandths.
    pub closed spec fn threshold(&self) -> u32 {
        self.similarity_threshold
    }

    /// No code is known twice and the threshold is at most 1000.
    pub closed spec fn wf(&self) -> bool {
        keys_distinct(self.barcode_cache@) && self.similarity_threshold <= 1000
    }

    /// A matcher knowing three sample products, needing a similarity of
    /// 0.7 for search hits.
    pub fn new() -> (r: Self)
        ensures
            r.wf(),
            r.threshold() == 700,
            r.cache().len() == 3,
            r.cache()[0].barcode@ == "4901234567890"@,
            r.cache()[0].product.name@ == "Coca Cola 500ml"@,
            r.cache()[0].product.category@ == "Beverages"@,
            r.cache()[0].product.description@ == "Classic Coca Cola 500ml bottle"@,
            views_of(r.cache()[0].product.tags@) == seq!["beverage"@, "cola"@],
            r.cache()[1].barcode@ == "4901234567891"@,
            r.cache()[1].product.name@ == "Potato Chips Original"@,
            r.cache()[1].product.category@ == "Snacks"@,
            r.cache()[1].product.description@ == "Original flavor potato chips"@,
            views_of(r.cache()[1].product.tags@) == seq!["snack"@, "chips"@],
            r.cache()[2].barcode@ == "12345678"@,
            r.cache()[2].product.name@ == "Mineral Water 330ml"@,
            r.cache()[2].product.category@ == "Beverages"@,
            r.cache()[2].product.description@ == "Natural mineral water"@,
            views_of(r.cache()[2].product.tags@) == seq!["water"@, "beverage"@],
            forall|i: int| 0 <= i < 3 ==> ((#[trigger] r.cache()[i]).product.barcode matches Some(b) && b@ == r.cache()[i].barcode@),
            forall|i: int| 0 <= i < 3 ==> uuid_text((#[trigger] r.cache()[i]).product.id@) && r.cache()[i].product.images@.len() == 0
                && r.cache()[i].product.prices@.len() == 0,
    {
        let mut v: Vec<CachedProduct> = Vec::new();
        let mut t0: Vec<String> = Vec::new();
        t0.push(owned("beverage"));
        t0.push(owned("cola"));
        v.push(CachedProduct {
            barcode: owned("4901234567890"),
            product: Product::new(
                owned("Coca Cola 500ml"),
                owned("Beverages"),
                owned("Classic Coca Cola 500ml bottle"),
                Some(owned("4901234567890")),
                Vec::new(),
                t0,
            ),
        });
        let mut t1: Vec<String> = Vec::new();
        t1.push(owned("snack"));
        t1.push(owned("chips"));
        v.push(CachedProduct {
            barcode: owned("4901234567891"),
            product: Product::new(
                owned("Potato Chips Original"),
                owned("Snacks"),
                owned("Original flavor potato chips"),
                Some(owned("4901234567891")),
                Vec::new(),
                t1,
            ),
        });
        let mut t2: Vec<String> = Vec::new();
        t2.push(owned("water"));
        t2.push(owned("beverage"));
        v.push(CachedProduct {
            barcode: owned("12345678"),
            product: Product::new(
                owned("Mineral Water 330ml"),
                owned("Beverages"),
                owned("Natural mineral water"),
                Some(owned("12345678")),
                Vec::new(),
                t2,
            ),
        });
        proof {
            reveal_strlit("4901234567890");
            reveal_strlit("4901234567891");
            reveal_strlit("12345678");
            assert(v@[0].key() != v@[1].key()) by {
                assert(v@[0].key()[12] != v@[1].key()[12]);
            }
            assert(v@[0].key().len() != v@[2].key().len());
            assert(v@[1].key().len() != v@[2].key().len());
            assert(views_of(v@[0].product.tags@) =~= seq!["beverage"@, "cola"@]);
            assert(views_of(v@[1].product.tags@) =~= seq!["snack"@, "chips"@]);
            assert(views_of(v@[2].product.tags@) =~= seq!["water"@, "beverage"@]);
        }
        ProductMatcher { barcode_cache: v, similarity_threshold: 700 }
    }

    /// The same matcher with another search threshold, clamped to 0..=1000.
    pub fn with_similarity_threshold(self, threshold: u32) -> (r: Self)
        requires
            self.wf(),
        ensures
            r.wf(),
            r.threshold() == (if threshold > 1000 { 1000 } else { threshold }),
            r.cache() == self.cache(),
    {
        let t = if threshold > 1000 {
            1000
        } else {
            threshold
        };
        ProductMatcher { similarity_threshold: t, ..self }
    }

    /// The product for a code: the known one, else one made up for a
    /// well-formed code, else none.
    pub fn find_product_by_barcode(&self, barcode: &str) -> (r: Result<Option<Product>, ScannerError>)
        requires
            self.wf(),
        ensures
            r matches Ok(o) && (if has_key(self.cache(), barcode@) {
                o matches Some(p) && same_product(p, self.cache()[key_index(self.cache(), barcode@)].product)
            } else if valid_code(barcode@) {
                o matches Some(p) && made_up_for(p, barcode@)
            } else {
                o is None
            }),
    {
        match get_copy(&self.barcode_cache, barcode) {
            Some(e) => {
                return Ok(Some(e.product));
            },
            None => {},
        }
        if self.is_valid_barcode(barcode) {
            let p = self.generate_product_from_barcode(barcode);
            Ok(Some(p))
        } else {
            Ok(None)
        }
    }

    /// The product for a scan's code.
    pub fn find_product_by_scan(&self, scan_result: &ScanResult) -> (r: Result<Option<Product>, ScannerError>)
        requires
            self.wf(),
        ensures
            r matches Ok(o) && (if has_key(self.cache(), scan_result.barcode@) {
                o matches Some(p) && same_product(p, self.cache()[key_index(self.cache(), scan_result.barcode@)].product)
            } else if valid_code(scan_result.barcode@) {
                o matches Some(p) && made_up_for(p, scan_result.barcode@)
            } else {
                o is None
            }),
    {
        self.find_product_by_barcode(scan_result.barcode.as_str())
    }

    /// The known products at least as similar to the query as the
    /// threshold, most similar first, in the order they were added among
    /// equals.
    pub fn search_products(&self, query: &str) -> (r: Result<Vec<ProductMatch>, ScannerError>)
        requires
            self.wf(),
        ensures
            r matches Ok(v) && exists|order: Seq<usize>|
                #[trigger] hits_in_order(self.cache(), query@, self.threshold() as int, v@, order),
    {
        let ghost q = query@;
        let ghost thr = self.similarity_threshold as int;
        let mut kept: Vec<CachedProduct> = Vec::new();
        let mut sims: Vec<i128> = Vec::new();
        let mut i: usize = 0;
        while i < self.barcode_cache.len()
            invariant
                q == query@,
                thr == self.similarity_threshold as int,
                i <= self.barcode_cache@.len(),
                kept@.len() == sims@.len(),
                kept@.len() == matching(self.barcode_cache@.subrange(0, i as int), q, thr).len(),
                forall|k: int|
                    0 <= k < kept@.len() ==> (#[trigger] kept@[k]).same(
                        &matching(self.barcode_cache@.subrange(0, i as int), q, thr)[k],
                    ),
                sims@ == similarities(matching(self.barcode_cache@.subrange(0, i as int), q, thr), q),
            decreases self.barcode_cache.len() - i,
        {
            let e = &self.barcode_cache[i];
            let ghost pre = self.barcode_cache@.subrange(0, i as int);
            let ghost m0 = matching(pre, q, thr);
            assert(self.barcode_cache@.subrange(0, i + 1).drop_last() =~= pre);
            assert(self.barcode_cache@.subrange(0, i + 1).last() == *e);
            let s = calculate_similarity(query, e.product.name.as_str(), e.barcode.as_str());
            if s >= self.similarity_threshold {
                kept.push(e.duplicate());
                sims.push(s as i128);
                let ghost m1 = matching(self.barcode_cache@.subrange(0, i + 1), q, thr);
                assert(m1 == m0.push(*e));
                assert(sims@ =~= similarities(m1, q));
                assert forall|k: int| 0 <= k < kept@.len() implies (#[trigger] kept@[k]).same(&m1[k]) by {
                    if k < m0.len() {
                        assert(m1[k] == m0[k]);
                    }
                }
            }
            i = i + 1;
        }
        assert(self.barcode_cache@.subrange(0, self.barcode_cache@.len() as int) =~= self.barcode_cache@);
        let ghost m = matching(self.barcode_cache@, q, thr);
        let order = rank_by_count(&sims, kept.len());
        proof {
            crate::ranking::lemma_ranked_full(sims@, kept@.len() as int, order@);
        }
        let mut out: Vec<ProductMatch> = Vec::new();
        let mut k: usize = 0;
        while k < order.len()
            invariant
                q == query@,
                m == matching(self.barcode_cache@, q, thr),
                thr == self.similarity_threshold as int,
                kept@.len() == m.len(),
                forall|j: int| 0 <= j < kept@.len() ==> (#[trigger] kept@[j]).same(&m[j]),
                sims@ == similarities(m, q),
                ranked_top(sims@, kept@.len() as int, order@),
                k <= order@.len(),
                out@.len() == k,
                forall|j: int|
                    0 <= j < k ==> {
                        &&& same_product((#[trigger] out@[j]).product, m[order@[j] as int].product)
                        &&& out@[j].similarity == entry_similarity(q, m[order@[j] as int])
                        &&& out@[j].match_type == match_kind(out@[j].similarity as int)
                    },
            decreases order.len() - k,
        {
            let idx = order[k];
            assert(idx < sims@.len());
            let sim = sims[idx];
            proof {
                lemma_similarity_range(q, m[idx as int].product.name@, m[idx as int].barcode@);
            }
            assert(sim == entry_similarity(q, m[idx as int]));
            let e = &kept[idx];
            let mt = if sim > 950 {
                ProductMatchType::Exact
            } else if sim > 800 {
                ProductMatchType::High
            } else {
                ProductMatchType::Partial
            };
            assert(0 <= sim <= 2000) by {
                lemma_similarity_range(q, m[idx as int].product.name@, m[idx as int].barcode@);
            }
            out.push(ProductMatch { product: e.product.copy(), similarity: sim as u32, match_type: mt });
            k = k + 1;
        }
        assert(hits_in_order(self.cache(), query@, self.threshold() as int, out@, order@));
        let r: Result<Vec<ProductMatch>, ScannerError> = Ok(out);
        assert(r matches Ok(v) && hits_in_order(self.cache(), query@, self.threshold() as int, v@, order@));
        r
    }

    /// Know a product under a code, in place of the one known under it.
    pub fn add_product(&mut self, barcode: String, product: Product)
        requires
            old(self).wf(),
        ensures
            final(self).wf(),
            final(self).threshold() == old(self).threshold(),
            final(self).cache() == put_record(old(self).cache(), CachedProduct { barcode, product }),
    {
        put(&mut self.barcode_cache, CachedProduct { barcode, product });
    }

    /// Forget the product known under a code, and return it.
    pub fn remove_product(&mut self, barcode: &str) -> (r: Option<Product>)
        requires
            old(self).wf(),
        ensures
            final(self).wf(),
            final(self).threshold() == old(self).threshold(),
            final(self).cache() == drop_key(old(self).cache(), barcode@),
            r == (match lookup_key(old(self).cache(), barcode@) {
                Some(e) => Some(e.product),
                None => None::<Product>,
            }),
    {
        match take(&mut self.barcode_cache, barcode) {
            Some(e) => Some(e.product),
            None => None,
        }
    }

    /// Forget every product.
    pub fn clear_cache(&mut self)
        requires
            old(self).wf(),
        ensures
            final(self).wf(),
            final(self).threshold() == old(self).threshold(),
            final(self).cache().len() == 0,
    {
        self.barcode_cache = Vec::new();
    }

    /// How many products are known.
    pub fn cache_size(&self) -> (n: usize)
        ensures
            n == self.cache().len(),
    {
        self.barcode_cache.len()
    }

    /// Whether a code is well-formed.
    fn is_valid_barcode(&self, barcode: &str) -> (b: bool)
        ensures
            b == valid_code(barcode@),
    {
        let cs = chars_of(barcode);
        let digits = all_digits(&cs);
        if cs.len() == 13 && digits {
            return check_digit_matches(&cs, 1, 3);
        }
        if cs.len() == 8 && digits {
            return check_digit_matches(&cs, 3, 1);
        }
        let n = byte_len(barcode);
        n >= 1 && n <= 1000
    }

    /// The product made up for a code.
    fn generate_product_from_barcode(&self, barcode: &str) -> (p: Product)
        ensures
            made_up_for(p, barcode@),
    {
        let (name, category) = made_up_name(barcode);
        let mut description = owned("Auto-generated product for barcode ");
        description.append(barcode);
        Product::new(name, category, description, Some(owned(barcode)), Vec::new(), Vec::new())
    }
}

impl Default for ProductMatcher {
    fn default() -> (r: Self)
        ensures
            r.wf(),
            r.threshold() == 700,
            r.cache().len() == 3,
    {
        Self::new()
    }
}

/// Whether every character is an ASCII digit.
fn all_digits(cs: &Vec<char>) -> (b: bool)
    ensures
        b == all_digit_chars(cs@),
{
    let mut i: usize = 0;
    while i < cs.len()
        invariant
            i <= cs@.len(),
            forall|k: int| 0 <= k < i ==> crate::text::is_digit_spec(#[trigger] cs@[k]),
        decreases cs.len() - i,
    {
        if !is_digit(cs[i]) {
            return false;
        }
        i = i + 1;
    }
    true
}

/// Whether the last digit is the check digit of the others.
fn check_digit_matches(cs: &Vec<char>, w_odd: u32, w_even: u32) -> (b: bool)
    requires
        all_digit_chars(cs@),
        1 <= cs@.len() <= 100,
        w_odd <= 3,
        w_even <= 3,
    ensures
        b == check_digit_holds(cs@, w_odd as int, w_even as int),
{
    let mut body: Vec<char> = Vec::new();
    let mut i: usize = 0;
    while i + 1 < cs.len()
        invariant
            1 <= cs@.len() <= 100,
            i + 1 <= cs@.len(),
            body@ == cs@.subrange(0, i as int),
        decreases cs.len() - i,
    {
        body.push(cs[i]);
        i = i + 1;
    }
    assert(body@ =~= cs@.drop_last());
    assert(all_digit_chars(body@));
    let d = weighted_check(&body, w_odd, w_even);
    let last = char_digit_value(cs[cs.len() - 1]);
    d as u32 == last
}

/// The characters of `cs` from `a` up to `b`, as a string.
fn substring(cs: &Vec<char>, a: usize, b: usize) -> (r: String)
    requires
        a <= b <= cs@.len(),
    ensures
        r@ == cs@.subrange(a as int, b as int),
{
    let mut v: Vec<char> = Vec::new();
    let mut i: usize = a;
    while i < b
        invariant
            a <= i <= b <= cs@.len(),
            v@ == cs@.subrange(a as int, i as int),
        decreases b - i,
    {
        v.push(cs[i]);
        i = i + 1;
    }
    string_from_chars(&v)
}

/// A string made of a prefix and a tail.
fn joined(prefix: &str, tail: &str) -> (r: String)
    ensures
        r@ == prefix@ + tail@,
{
    let mut s = owned(prefix);
    s.append(tail);
    s
}

/// The kind of a code, judged from its text.
pub fn determine_barcode_type(barcode: &str) -> (t: BarcodeType)
    ensures
        t == kind_of_code(barcode@),
{
    let cs = chars_of(barcode);
    let digits = all_digits(&cs);
    if cs.len() == 13 && digits {
        BarcodeType::Ean13
    } else if cs.len() == 8 && digits {
        BarcodeType::Ean8
    } else if starts_with_chars(barcode, "http") || str_contains(barcode, "://") {
        BarcodeType::QrCode
    } else {
        let n = byte_len(barcode);
        if n >= 3 && n <= 20 {
            BarcodeType::Code128
        } else {
            BarcodeType::Unknown
        }
    }
}

/// The name and category for a product made up for a code.
fn made_up_name(barcode: &str) -> (r: (String, String))
    ensures
        (r.0@, r.1@) == made_up_entry(barcode@),
{
    let cs = chars_of(barcode);
    match determine_barcode_type(barcode) {
        BarcodeType::Ean13 | BarcodeType::Ean8 => {
            let prefix = substring(&cs, 0, 3);
            let middle = substring(&cs, 3, 8);
            let p = prefix.as_str();
            if str_eq(p, "490") || str_eq(p, "491") || str_eq(p, "492") {
                (joined("Japanese Product ", middle.as_str()), owned("Food"))
            } else if str_eq(p, "123") {
                (joined("Beverage ", middle.as_str()), owned("Drinks"))
            } else if str_eq(p, "789") {
                (joined("Snack ", middle.as_str()), owned("Snacks"))
            } else {
                let head = substring(&cs, 0, 6);
                (joined("Product ", head.as_str()), owned("General"))
            }
        },
        BarcodeType::Code128 => {
            if starts_with_chars(barcode, "PROD") {
                proof {
                    reveal_strlit("PROD");
                }
                let tail = substring(&cs, 4, cs.len());
                (joined("Product ", tail.as_str()), owned("Manufactured"))
            } else {
                (joined("Item ", barcode), owned("General"))
            }
        },
        BarcodeType::QrCode => {
            if starts_with_chars(barcode, "http") {
                (owned("Online Product"), owned("Digital"))
            } else {
                (joined("QR Product ", barcode), owned("QR Code"))
            }
        },
        BarcodeType::Unknown => (joined("Unknown Product ", barcode), owned("Unknown")),
    }
}

/// Similarities stay within 0..=2000 (word overlap counts repeated query
/// words each time, so it can pass 1000).
proof fn lemma_similarity_range(query: Seq<char>, name: Seq<char>, code: Seq<char>)
    ensures
        0 <= similarity(query, name, code) <= 2000,
{
    let ql = unicode_to_lowercase(query);
    let nl = unicode_to_lowercase(name);
    let qw = words(ql);
    let nw = words(nl);
    lemma_common_words_bound(qw, nw);
    let c = common_words(qw, nw);
    if c > 0 {
        let t = qw.len() + nw.len();
        assert(c * 2000 <= 2000 * t) by (nonlinear_arith)
            requires
                c <= t,
        ;
        assert(c * 2000 / t <= 2000) by (nonlinear_arith)
            requires
                c * 2000 <= 2000 * t,
                t > 0,
        ;
    }
}

/// Shared words are at most as many as the query's words.
proof fn lemma_common_words_bound(q: Seq<Seq<char>>, n: Seq<Seq<char>>)
    ensures
        common_words(q, n) <= q.len(),
    decreases q.len(),
{
    if q.len() > 0 {
        lemma_common_words_bound(q.drop_last(), n);
    }
}

/// Similarity of a query to a product name and code, in thousandths.
pub fn calculate_similarity(query: &str, product_name: &str, barcode: &str) -> (s: u32)
    ensures
        s == similarity(query@, product_name@, barcode@),
{
    let query_lower = to_lowercase(query);
    let name_lower = to_lowercase(product_name);
    if str_eq(query, barcode) {
        return 1000;
    }
    if str_eq(query_lower.as_str(), name_lower.as_str()) {
        return 950;
    }
    if str_contains(name_lower.as_str(), query_lower.as_str()) {
        return 800;
    }
    if str_contains(query_lower.as_str(), name_lower.as_str()) {
        return 750;
    }
    if str_contains(barcode, query) || str_contains(query, barcode) {
        return 700;
    }
    let query_words = word_strings(query_lower.as_str());
    let name_words = word_strings(name_lower.as_str());
    let ghost qw = views_of(query_words@);
    let ghost nw = views_of(name_words@);
    let mut common: usize = 0;
    let mut i: usize = 0;
    while i < query_words.len()
        invariant
            qw == views_of(query_words@),
            nw == views_of(name_words@),
            i <= qw.len(),
            common == common_words(qw.subrange(0, i as int), nw),
            common <= i,
        decreases query_words.len() - i,
    {
        assert(qw.subrange(0, i + 1).drop_last() =~= qw.subrange(0, i as int));
        assert(qw.subrange(0, i + 1).last() == query_words@[i as int]@);
        if holds_string(&name_words, query_words[i].as_str()) {
            common = common + 1;
        }
        i = i + 1;
    }
    assert(qw.subrange(0, qw.len() as int) =~= qw);
    if common > 0 {
        proof {
            lemma_similarity_range(query@, product_name@, barcode@);
        }
        let total = (query_words.len() as u128) + (name_words.len() as u128);
        ((common as u128) * 2000 / total) as u32
    } else {
        0
    }
}

/// A product added under a code is the one found for that code: after
/// storing an entry, the code is known and looking it up gives that entry,
/// whatever was known under the code before.
pub proof fn law_added_product_is_found(cache: Seq<CachedProduct>, e: CachedProduct)
    requires
        keys_distinct(cache),
    ensures
        has_key(put_record(cache, e), e.barcode@),
        put_record(cache, e)[key_index(put_record(cache, e), e.barcode@)] == e,
{
    crate::table::law_lookup_after_put(cache, e, e.barcode@);
}

} // verus!
