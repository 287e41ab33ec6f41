//! The search engine: word indices over products and stores, scoring by
//! matched words, ordering, suggestions, facets and a result cache.
//!
//! Scores, prices and confidences are hundredths; times are Unix seconds.
use vstd::prelude::*;
use crate::error::now_unix_seconds;
use crate::models::{PriceRecord, Product, Store};
use crate::ranking::{name_before, rank_by_count, rank_by_name, ranked_top, sorted_by_name};
use crate::search::filters::{SearchFilters, SortDirection, SortField, SortOptions};
use crate::services::ServiceError;
use crate::table::{tally_of, tally_strings, counts_view, views_of, Record};
use crate::text::{
    chars_of, is_whitespace, owned, str_eq, string_from_chars, to_lowercase, unicode_to_lowercase,
    unicode_whitespace, utf8_len, byte_len,
};

verus! {

broadcast use vstd::string::group_string_axioms;

/// The words of `s`: its maximal runs of characters other than white space.
pub open spec fn words(s: Seq<char>) -> Seq<Seq<char>>
    decreases s.len(),
{
    if s.len() == 0 {
        Seq::empty()
    } else {
        let w = words(s.drop_last());
        let c = s.last();
        if unicode_whitespace(c) {
            w
        } else if s.len() >= 2 && !unicode_whitespace(s[s.len() - 2]) {
            w.update(w.len() - 1, w.last().push(c))
        } else {
            w.push(seq![c])
        }
    }
}

/// Words longer than one byte.
pub open spec fn long_word() -> spec_fn(Seq<char>) -> bool {
    |w: Seq<char>| utf8_len(w) > 1
}

/// The words of a text, lower-cased, longer than one byte.
pub open spec fn tokens(text: Seq<char>) -> Seq<Seq<char>> {
    words(unicode_to_lowercase(text)).filter(long_word())
}

/// A word index: each term with the ids filed under it, in filing order.
pub open spec fn index_view(v: Seq<(String, Vec<String>)>) -> Seq<(Seq<char>, Seq<Seq<char>>)> {
    v.map_values(|e: (String, Vec<String>)| (e.0@, views_of(e.1@)))
}

/// No term is filed twice.
pub open spec fn terms_distinct(ix: Seq<(Seq<char>, Seq<Seq<char>>)>) -> bool {
    forall|a: int, b: int| 0 <= a < ix.len() && 0 <= b < ix.len() && a != b ==> #[trigger] ix[a].0 != #[trigger] ix[b].0
}

/// The ids filed under a term.
pub open spec fn postings(ix: Seq<(Seq<char>, Seq<Seq<char>>)>, term: Seq<char>) -> Seq<Seq<char>> {
    if exists|k: int| 0 <= k < ix.len() && (#[trigger] ix[k]).0 == term {
        ix[choose|k: int| 0 <= k < ix.len() && (#[trigger] ix[k]).0 == term].1
    } else {
        Seq::empty()
    }
}

/// The index with `id` filed under `term`.
pub open spec fn file(ix: Seq<(Seq<char>, Seq<Seq<char>>)>, term: Seq<char>, id: Seq<char>) -> Seq<(Seq<char>, Seq<Seq<char>>)> {
    if exists|k: int| 0 <= k < ix.len() && (#[trigger] ix[k]).0 == term {
        let k = choose|k: int| 0 <= k < ix.len() && (#[trigger] ix[k]).0 == term;
        ix.update(k, (term, ix[k].1.push(id)))
    } else {
        ix.push((term, seq![id]))
    }
}

/// The index with `id` filed under each of the terms, in order.
pub open spec fn file_all(ix: Seq<(Seq<char>, Seq<Seq<char>>)>, terms: Seq<Seq<char>>, id: Seq<char>) -> Seq<
    (Seq<char>, Seq<Seq<char>>),
>
    decreases terms.len(),
{
    if terms.len() == 0 {
        ix
    } else {
        file(file_all(ix, terms.drop_last(), id), terms.last(), id)
    }
}

/// The ids filed under each query term, term after term.
pub open spec fn hits(ix: Seq<(Seq<char>, Seq<Seq<char>>)>, terms: Seq<Seq<char>>) -> Seq<Seq<char>>
    decreases terms.len(),
{
    if terms.len() == 0 {
        Seq::empty()
    } else {
        hits(ix, terms.drop_last()) + postings(ix, terms.last())
    }
}

/// Why a result item matched.
#[derive(Debug, Clone)]
pub enum MatchReason {
    NameMatch(u128),
    CategoryMatch(u128),
    TagMatch(String, u128),
    DescriptionMatch(u128),
    BarcodeMatch,
    StoreMatch(String),
}

/// How a product's price moves.
#[derive(Debug, Clone, Copy)]
pub struct PriceTrend {
    pub current_price: i64,
    pub price_change_24h: Option<i64>,
    pub price_change_7d: Option<i64>,
    pub lowest_price_30d: Option<i64>,
    pub is_trending_up: bool,
    pub confidence: u64,
}

/// How much of a product is in stock.
#[derive(Debug, Clone, Copy, PartialEq, Eq, Structural)]
pub enum StockLevel {
    High,
    Medium,
    Low,
    OutOfStock,
    Unknown,
}

/// Where and whether a product is available.
#[derive(Debug, Clone, Copy)]
pub struct AvailabilityInfo {
    pub in_stock: bool,
    pub stock_level: StockLevel,
    pub last_seen: i64,
    pub store_count: usize,
}

/// One product found.
#[derive(Debug, Clone)]
pub struct SearchResultItem {
    pub product: Product,
    pub best_price: Option<PriceRecord>,
    pub store_info: Option<Store>,
    pub relevance_score: u128,
    pub match_reasons: Vec<MatchReason>,
    pub price_trend: PriceTrend,
    pub availability_info: AvailabilityInfo,
}

/// A value of a facet with its count.
#[derive(Debug, Clone)]
pub struct FacetItem {
    pub name: String,
    pub count: usize,
    pub selected: bool,
}

/// A price band with its count.
#[derive(Debug, Clone)]
pub struct PriceRangeFacet {
    pub min_price: i64,
    pub max_price: i64,
    pub count: usize,
    pub label: String,
}

/// Counts of the results by category, store, price band, brand and tag.
#[derive(Debug, Clone)]
pub struct SearchFacets {
    pub categories: Vec<FacetItem>,
    pub stores: Vec<FacetItem>,
    pub price_ranges: Vec<PriceRangeFacet>,
    pub brands: Vec<FacetItem>,
    pub tags: Vec<FacetItem>,
}

/// What was found.
#[derive(Debug, Clone)]
pub struct SearchResult {
    pub items: Vec<SearchResultItem>,
    pub total_count: usize,
    pub search_time_ms: u64,
    pub suggestions: Vec<String>,
    pub filters_applied: SearchFilters,
    pub facets: SearchFacets,
}

/// What to look for. The minimum relevance is in hundredths.
#[derive(Debug, Clone)]
pub struct SearchQuery {
    pub text: String,
    pub filters: SearchFilters,
    pub fuzzy_matching: bool,
    pub include_suggestions: bool,
    pub max_results: usize,
    pub min_relevance_score: u64,
}

impl Default for SearchQuery {
    fn default() -> (r: Self)
        ensures
            r.text@.len() == 0,
            crate::search::filters::is_default_filters(r.filters),
            r.fuzzy_matching,
            r.include_suggestions,
            r.max_results == 50,
            r.min_relevance_score == 10,
    {
        SearchQuery {
            text: String::new(),
            filters: SearchFilters::default(),
            fuzzy_matching: true,
            include_suggestions: true,
            max_results: 50,
            min_relevance_score: 10,
        }
    }
}

/// Two result items hold the same values; lists are compared by their items.
pub open spec fn same_item(a: SearchResultItem, b: SearchResultItem) -> bool {
    &&& crate::models::same_product(a.product, b.product)
    &&& a.best_price == b.best_price
    &&& match (a.store_info, b.store_info) {
        (Some(x), Some(y)) => crate::models::same_store(x, y),
        (None, None) => true,
        _ => false,
    }
    &&& a.relevance_score == b.relevance_score
    &&& a.match_reasons@ == b.match_reasons@
    &&& a.price_trend == b.price_trend
    &&& a.availability_info == b.availability_info
}

/// Two results hold the same items, counts, time, suggestions, settings and
/// facets.
pub open spec fn same_result(a: SearchResult, b: SearchResult) -> bool {
    &&& a.items@.len() == b.items@.len()
    &&& forall|i: int| 0 <= i < a.items@.len() ==> same_item(#[trigger] a.items@[i], b.items@[i])
    &&& a.total_count == b.total_count
    &&& a.search_time_ms == b.search_time_ms
    &&& a.suggestions@ == b.suggestions@
    &&& crate::search::filters::same_filters(a.filters_applied, b.filters_applied)
    &&& a.facets.categories@ == b.facets.categories@
    &&& a.facets.stores@ == b.facets.stores@
    &&& a.facets.price_ranges@ == b.facets.price_ranges@
    &&& a.facets.brands@ == b.facets.brands@
    &&& a.facets.tags@ == b.facets.tags@
}

impl MatchReason {
    /// A copy of the reason.
    pub fn copy(&self) -> (r: Self)
        ensures
            r == *self,
    {
        match self {
            MatchReason::NameMatch(s) => MatchReason::NameMatch(*s),
            MatchReason::CategoryMatch(s) => MatchReason::CategoryMatch(*s),
            MatchReason::TagMatch(t, s) => MatchReason::TagMatch(t.clone(), *s),
            MatchReason::DescriptionMatch(s) => MatchReason::DescriptionMatch(*s),
            MatchReason::BarcodeMatch => MatchReason::BarcodeMatch,
            MatchReason::StoreMatch(n) => MatchReason::StoreMatch(n.clone()),
        }
    }
}

/// Copies of the reasons of a list.
fn copy_reasons(v: &Vec<MatchReason>) -> (r: Vec<MatchReason>)
    ensures
        r@ == v@,
{
    let mut out: Vec<MatchReason> = Vec::new();
    let mut i: usize = 0;
    while i < v.len()
        invariant
            i <= v@.len(),
            out@ == v@.subrange(0, i as int),
        decreases v.len() - i,
    {
        out.push(v[i].copy());
        assert(out@ =~= v@.subrange(0, i + 1));
        i = i + 1;
    }
    assert(v@.subrange(0, v@.len() as int) =~= v@);
    out
}

/// Copies of the facet values of a list.
fn copy_facet_items(v: &Vec<FacetItem>) -> (r: Vec<FacetItem>)
    ensures
        r@ == v@,
{
    let mut out: Vec<FacetItem> = Vec::new();
    let mut i: usize = 0;
    while i < v.len()
        invariant
            i <= v@.len(),
            out@ == v@.subrange(0, i as int),
        decreases v.len() - i,
    {
        let x = &v[i];
        out.push(FacetItem { name: x.name.clone(), count: x.count, selected: x.selected });
        assert(out@ =~= v@.subrange(0, i + 1));
        i = i + 1;
    }
    assert(v@.subrange(0, v@.len() as int) =~= v@);
    out
}

/// Copies of the price bands of a list.
fn copy_price_bands(v: &Vec<PriceRangeFacet>) -> (r: Vec<PriceRangeFacet>)
    ensures
        r@ == v@,
{
    let mut out: Vec<PriceRangeFacet> = Vec::new();
    let mut i: usize = 0;
    while i < v.len()
        invariant
            i <= v@.len(),
            out@ == v@.subrange(0, i as int),
        decreases v.len() - i,
    {
        let x = &v[i];
        out.push(PriceRangeFacet { min_price: x.min_price, max_price: x.max_price, count: x.count, label: x.label.clone() });
        assert(out@ =~= v@.subrange(0, i + 1));
        i = i + 1;
    }
    assert(v@.subrange(0, v@.len() as int) =~= v@);
    out
}

impl SearchResultItem {
    /// A copy of the item.
    pub fn copy(&self) -> (r: Self)
        ensures
            same_item(r, *self),
    {
        let best_price = match &self.best_price {
            Some(p) => Some(p.copy()),
            None => None,
        };
        let store_info = match &self.store_info {
            Some(s) => Some(s.duplicate()),
            None => None,
        };
        SearchResultItem {
            product: self.product.copy(),
            best_price,
            store_info,
            relevance_score: self.relevance_score,
            match_reasons: copy_reasons(&self.match_reasons),
            price_trend: self.price_trend,
            availability_info: self.availability_info,
        }
    }
}

impl SearchResult {
    /// A copy of the result.
    pub fn duplicate(&self) -> (r: Self)
        ensures
            same_result(r, *self),
    {
        let mut items: Vec<SearchResultItem> = Vec::new();
        let mut i: usize = 0;
        while i < self.items.len()
            invariant
                i <= self.items@.len(),
                items@.len() == i,
                forall|j: int| 0 <= j < i ==> same_item(#[trigger] items@[j], self.items@[j]),
            decreases self.items.len() - i,
        {
            items.push(self.items[i].copy());
            i = i + 1;
        }
        SearchResult {
            items,
            total_count: self.total_count,
            search_time_ms: self.search_time_ms,
            suggestions: crate::models::copy_strings(&self.suggestions),
            filters_applied: self.filters_applied.copy(),
            facets: SearchFacets {
                categories: copy_facet_items(&self.facets.categories),
                stores: copy_facet_items(&self.facets.stores),
                price_ranges: copy_price_bands(&self.facets.price_ranges),
                brands: copy_facet_items(&self.facets.brands),
                tags: copy_facet_items(&self.facets.tags),
            },
        }
    }
}

/// The whitespace-separated words of a list of characters, in order.
pub fn split_words(cs: &Vec<char>) -> (r: Vec<Vec<char>>)
    ensures
        r@.map_values(|w: Vec<char>| w@) == words(cs@),
{
    let ghost s = cs@;
    let mut done: Vec<Vec<char>> = Vec::new();
    let mut cur: Vec<char> = Vec::new();
    let mut i: usize = 0;
    while i < cs.len()
        invariant
            s == cs@,
            i <= s.len(),
            words(s.subrange(0, i as int)) == done@.map_values(|w: Vec<char>| w@) + (if cur@.len() > 0 {
                seq![cur@]
            } else {
                Seq::empty()
            }),
            cur@.len() > 0 ==> i > 0 && !unicode_whitespace(s[i - 1]),
            cur@.len() == 0 ==> i == 0 || unicode_whitespace(s[i - 1]),
            forall|k: int| 0 <= k < done@.len() ==> (#[trigger] done@[k])@.len() > 0,
        decreases cs.len() - i,
    {
        let c = cs[i];
        let ghost pre = s.subrange(0, i as int);
        let ghost d0 = done@.map_values(|w: Vec<char>| w@);
        assert(s.subrange(0, i + 1).drop_last() =~= pre);
        assert(s.subrange(0, i + 1).last() == c);
        if is_whitespace(c) {
            if cur.len() > 0 {
                let w = cur;
                done.push(w);
                cur = Vec::new();
                assert(done@.map_values(|w: Vec<char>| w@) =~= d0.push(w@));
            }
        } else {
            let ghost c0 = cur@;
            if cur.len() > 0 {
                assert(s.subrange(0, i + 1)[i - 1] == s[i - 1]);
                cur.push(c);
                assert(words(s.subrange(0, i + 1)) =~= d0 + seq![cur@]);
            } else {
                if i > 0 {
                    assert(s.subrange(0, i + 1)[i - 1] == s[i - 1]);
                }
                cur.push(c);
                assert(cur@ =~= seq![c]);
            }
        }
        i = i + 1;
    }
    if cur.len() > 0 {
        let ghost d0 = done@.map_values(|w: Vec<char>| w@);
        let w = cur;
        done.push(w);
        assert(done@.map_values(|w: Vec<char>| w@) =~= d0.push(w@));
    }
    assert(s.subrange(0, s.len() as int) =~= s);
    done
}

/// The words of a text, as strings.
pub fn word_strings(s: &str) -> (r: Vec<String>)
    ensures
        views_of(r@) == words(s@),
{
    let cs = chars_of(s);
    let ws = split_words(&cs);
    let ghost all = ws@.map_values(|w: Vec<char>| w@);
    let mut out: Vec<String> = Vec::new();
    let mut i: usize = 0;
    while i < ws.len()
        invariant
            all == ws@.map_values(|w: Vec<char>| w@),
            i <= ws@.len(),
            views_of(out@) == all.subrange(0, i as int),
        decreases ws.len() - i,
    {
        let ghost before = out@;
        out.push(string_from_chars(&ws[i]));
        assert(views_of(out@) =~= views_of(before).push(all[i as int]));
        assert(all.subrange(0, i + 1) =~= all.subrange(0, i as int).push(all[i as int]));
        i = i + 1;
    }
    assert(all.subrange(0, all.len() as int) =~= all);
    out
}

/// The words of a text, lower-cased, longer than one byte, in order.
pub fn tokenize(text: &str) -> (r: Vec<String>)
    ensures
        views_of(r@) == tokens(text@),
{
    let lower = to_lowercase(text);
    let cs = chars_of(lower.as_str());
    let ghost s = cs@;
    let done = split_words(&cs);
    let ghost all = done@.map_values(|w: Vec<char>| w@);
    assert(all == words(s));
    assert(s == unicode_to_lowercase(text@));
    let ghost pred = long_word();
    let mut out: Vec<String> = Vec::new();
    let mut k: usize = 0;
    while k < done.len()
        invariant
            all == done@.map_values(|w: Vec<char>| w@),
            pred == long_word(),
            k <= done@.len(),
            views_of(out@) == all.subrange(0, k as int).filter(pred),
        decreases done.len() - k,
    {
        proof {
            reveal(Seq::filter);
        }
        assert(all.subrange(0, k + 1).drop_last() =~= all.subrange(0, k as int));
        assert(all.subrange(0, k + 1).last() == done@[k as int]@);
        let w = string_from_chars(&done[k]);
        if byte_len(w.as_str()) > 1 {
            let ghost before = out@;
            out.push(w);
            assert(views_of(out@) =~= views_of(before).push(done@[k as int]@));
        }
        k = k + 1;
    }
    assert(all.subrange(0, all.len() as int) =~= all);
    assert(views_of(out@) == words(s).filter(long_word()));
    out
}


/// The product index after filing a list of products: name and
/// description words go to the product index, category words to the
/// category index, tags as they are to the tag index.
pub open spec fn product_words_ix(products: Seq<Product>) -> Seq<(Seq<char>, Seq<Seq<char>>)>
    decreases products.len(),
{
    if products.len() == 0 {
        Seq::empty()
    } else {
        let p = products.last();
        file_all(file_all(product_words_ix(products.drop_last()), tokens(p.name@), p.id@), tokens(p.description@), p.id@)
    }
}

/// The category index after filing a list of products.
pub open spec fn category_words_ix(products: Seq<Product>) -> Seq<(Seq<char>, Seq<Seq<char>>)>
    decreases products.len(),
{
    if products.len() == 0 {
        Seq::empty()
    } else {
        let p = products.last();
        file_all(category_words_ix(products.drop_last()), tokens(p.category@), p.id@)
    }
}

/// The tag index after filing a list of products.
pub open spec fn tags_ix(products: Seq<Product>) -> Seq<(Seq<char>, Seq<Seq<char>>)>
    decreases products.len(),
{
    if products.len() == 0 {
        Seq::empty()
    } else {
        let p = products.last();
        file_all(tags_ix(products.drop_last()), views_of(p.tags@), p.id@)
    }
}

/// The store index after filing a list of stores.
pub open spec fn store_words_ix(stores: Seq<Store>) -> Seq<(Seq<char>, Seq<Seq<char>>)>
    decreases stores.len(),
{
    if stores.len() == 0 {
        Seq::empty()
    } else {
        let s = stores.last();
        file_all(store_words_ix(stores.drop_last()), tokens(s.name@), s.id@)
    }
}

/// The products a query finds, with their scores in hundredths: each id
/// filed under a query word, in the order first met, scoring one hundred per
/// filing; those below the minimum dropped.
pub open spec fn scored(pix: Seq<(Seq<char>, Seq<Seq<char>>)>, text: Seq<char>, min_score: int) -> Seq<(Seq<char>, int)> {
    tally_of(hits(pix, tokens(text))).map_values(hundred_per_hit()).filter(at_least(min_score))
}

/// A found id with its number of filings, scored one hundred per filing.
pub open spec fn hundred_per_hit() -> spec_fn((Seq<char>, int)) -> (Seq<char>, int) {
    |e: (Seq<char>, int)| (e.0, 100 * e.1)
}

/// Found products scoring at least `min_score`.
pub open spec fn at_least(min_score: int) -> spec_fn((Seq<char>, int)) -> bool {
    |e: (Seq<char>, int)| e.1 >= min_score
}

/// The keys the results are ordered by, for orders other than by name:
/// the score for relevance (negated when ascending), nothing otherwise.
pub open spec fn order_keys(found: Seq<(Seq<char>, int)>, opts: SortOptions) -> Seq<i128> {
    found.map_values(|e: (Seq<char>, int)| if opts.primary_sort == SortField::Relevance {
        if opts.sort_direction == SortDirection::Descending {
            e.1 as i128
        } else {
            -e.1 as i128
        }
    } else {
        0i128
    })
}

/// The name of the product filed under an id.
pub open spec fn product_name_of(id: Seq<char>) -> Seq<char> {
    "Product "@ + id
}

/// The results by their values: product id, name and score.
pub open spec fn items_view(items: Seq<SearchResultItem>) -> Seq<(Seq<char>, Seq<char>, int)> {
    items.map_values(|it: SearchResultItem| (it.product.id@, it.product.name@, it.relevance_score as int))
}

/// `order` is the order of the found products that the sort options ask for.
pub open spec fn sorts_as(found: Seq<(Seq<char>, int)>, opts: SortOptions, order: Seq<usize>) -> bool {
    if opts.primary_sort == SortField::Name {
        sorted_by_name(
            found.map_values(|e: (Seq<char>, int)| product_name_of(e.0)),
            opts.sort_direction == SortDirection::Descending,
            order,
        )
    } else {
        ranked_top(order_keys(found, opts), found.len() as int, order)
    }
}

/// The results in `order`, at most `max` of them.
pub open spec fn ordered_items(found: Seq<(Seq<char>, int)>, order: Seq<usize>, max: int) -> Seq<(Seq<char>, Seq<char>, int)> {
    let n = if max < order.len() {
        max
    } else {
        order.len() as int
    };
    order.subrange(0, n).map_values(|i: usize| (found[i as int].0, product_name_of(found[i as int].0), found[i as int].1))
}

/// The key a query is cached under.
pub open spec fn cache_key(text: Seq<char>, max_results: int) -> Seq<char> {
    text + "_"@ + crate::utils::numbers::nat_decimal(max_results as nat)
}

/// No key is cached twice.
pub open spec fn cache_keys_distinct(c: Seq<(Seq<char>, i64)>) -> bool {
    forall|a: int, b: int| 0 <= a < c.len() && 0 <= b < c.len() && a != b ==> #[trigger] c[a].0 != #[trigger] c[b].0
}

/// A result cached at `t` is still valid at `now`: fewer whole minutes
/// (rounded toward zero) than the time to live have passed.
pub open spec fn cache_fresh(t: int, now: int, ttl: int) -> bool {
    crate::auth::session::minutes_between(t, now) < ttl
}

/// The cache holds a result under `key` that is still valid at `now`.
pub open spec fn cache_hit(c: Seq<(Seq<char>, i64)>, key: Seq<char>, now: int, ttl: int) -> bool {
    exists|k: int| 0 <= k < c.len() && (#[trigger] c[k]).0 == key && cache_fresh(c[k].1 as int, now, ttl)
}

/// The cache with `key` stored at `now`: in place of its old entry, or added last.
pub open spec fn cache_put(c: Seq<(Seq<char>, i64)>, key: Seq<char>, now: i64) -> Seq<(Seq<char>, i64)> {
    if exists|k: int| 0 <= k < c.len() && (#[trigger] c[k]).0 == key {
        c.update(choose|k: int| 0 <= k < c.len() && (#[trigger] c[k]).0 == key, (key, now))
    } else {
        c.push((key, now))
    }
}

/// What a search at `now` leaves and gives: while the cache holds a fresh
/// result under the query's key, that result and the cache unchanged;
/// otherwise a fresh result, cached under the key in place of any older
/// one, every other cached result kept.
pub open spec fn searched(before: SearchEngine, after: SearchEngine, query: SearchQuery, r: SearchResult, now: i64) -> bool {
    if cache_hit(
        before.cache_keys(),
        cache_key(query.text@, query.max_results as int),
        now as int,
        before.ttl_minutes() as int,
    ) {
        &&& after.cache_keys() == before.cache_keys()
        &&& after.cached_results() == before.cached_results()
        &&& same_result(
            r,
            before.cached_results()[cache_slot(
                before.cache_keys(),
                cache_key(query.text@, query.max_results as int),
            )],
        )
    } else {
        &&& fresh_result(before.product_ix(), query, r)
        &&& after.cache_keys() == cache_put(
            before.cache_keys(),
            cache_key(query.text@, query.max_results as int),
            now,
        )
        &&& same_result(
            after.cached_results()[cache_slot(
                after.cache_keys(),
                cache_key(query.text@, query.max_results as int),
            )],
            r,
        )
        &&& forall|i: int|
            0 <= i < before.cache_keys().len() && (#[trigger] before.cache_keys()[i]).0 != cache_key(
                query.text@,
                query.max_results as int,
            ) ==> after.cached_results()[i] == before.cached_results()[i]
    }
}

/// A repeated search, answered from a cache entry that is still fresh,
/// gives the same result as the search before it: whether that one was
/// itself answered from the cache or computed afresh and cached.
pub proof fn law_repeated_search_same_result(
    e0: SearchEngine,
    e1: SearchEngine,
    e2: SearchEngine,
    query: SearchQuery,
    r1: SearchResult,
    r2: SearchResult,
    now1: i64,
    now2: i64,
)
    requires
        e0.wf(),
        e1.wf(),
        e1.ttl_minutes() == e0.ttl_minutes(),
        searched(e0, e1, query, r1, now1),
        searched(e1, e2, query, r2, now2),
        cache_hit(e1.cache_keys(), cache_key(query.text@, query.max_results as int), now2 as int, e1.ttl_minutes() as int),
    ensures
        same_result(r2, r1),
{
    let key = cache_key(query.text@, query.max_results as int);
    let stored = e1.cached_results()[cache_slot(e1.cache_keys(), key)];
    assert(same_result(stored, r1));
    assert(same_result(r2, stored));
    assert forall|i: int| 0 <= i < r2.items@.len() implies same_item(#[trigger] r2.items@[i], r1.items@[i]) by {
        assert(same_item(r2.items@[i], stored.items@[i]));
        assert(same_item(stored.items@[i], r1.items@[i]));
    }
}

/// After a search the cache holds a result for its query that is fresh at
/// the time of the search, so asking again at once is answered from the
/// cache.
pub proof fn law_search_leaves_fresh_entry(e0: SearchEngine, e1: SearchEngine, query: SearchQuery, r: SearchResult, now: i64)
    requires
        e0.wf(),
        e1.ttl_minutes() == e0.ttl_minutes(),
        e0.ttl_minutes() > 0,
        searched(e0, e1, query, r, now),
    ensures
        cache_hit(e1.cache_keys(), cache_key(query.text@, query.max_results as int), now as int, e1.ttl_minutes() as int),
{
    let key = cache_key(query.text@, query.max_results as int);
    let c = e0.cache_keys();
    if !cache_hit(c, key, now as int, e0.ttl_minutes() as int) {
        assert(crate::auth::session::minutes_between(now as int, now as int) == 0);
        if exists|k: int| 0 <= k < c.len() && (#[trigger] c[k]).0 == key {
            let k = choose|k: int| 0 <= k < c.len() && (#[trigger] c[k]).0 == key;
            assert(e1.cache_keys()[k] == (key, now));
        } else {
            assert(e1.cache_keys()[c.len() as int] == (key, now));
        }
    }
}

/// Where `key` stands in the cache.
pub open spec fn cache_slot(c: Seq<(Seq<char>, i64)>, key: Seq<char>) -> int {
    choose|k: int| 0 <= k < c.len() && (#[trigger] c[k]).0 == key
}

/// Where no key is cached twice, the slot of a cached key is the one that
/// holds it.
pub proof fn lemma_cache_slot(c: Seq<(Seq<char>, i64)>, key: Seq<char>, f: int)
    requires
        cache_keys_distinct(c),
        0 <= f < c.len(),
        c[f].0 == key,
    ensures
        cache_slot(c, key) == f,
{
    let k = cache_slot(c, key);
    assert(0 <= k < c.len() && c[k].0 == key);
    if k != f {
        assert(c[k].0 != c[f].0);
    }
}

/// Word indices over products and stores, and the cache of recent results.
pub struct SearchEngine {
    product_index: Vec<(String, Vec<String>)>,
    store_index: Vec<(String, Vec<String>)>,
    category_index: Vec<(String, Vec<String>)>,
    tag_index: Vec<(String, Vec<String>)>,
    search_cache: Vec<(String, SearchResult, i64)>,
    cache_ttl_minutes: u32,
}

/// File `id` under `term`.
fn file_term(index: &mut Vec<(String, Vec<String>)>, term: String, id: &String)
    requires
        terms_distinct(index_view(old(index)@)),
    ensures
        terms_distinct(index_view(final(index)@)),
        index_view(final(index)@) == file(index_view(old(index)@), term@, id@),
{
    let ghost ix = index_view(index@);
    let mut k: usize = 0;
    while k < index.len()
        invariant
            ix == index_view(index@),
            ix == index_view(old(index)@),
            terms_distinct(ix),
            k <= index@.len(),
            forall|j: int| 0 <= j < k ==> (#[trigger] index@[j]).0@ != term@,
        decreases index.len() - k,
    {
        if str_eq(index[k].0.as_str(), term.as_str()) {
            proof {
                assert(ix[k as int].0 == term@);
                let c = choose|c: int| 0 <= c < ix.len() && (#[trigger] ix[c]).0 == term@;
                if c != k as int {
                    assert(ix[c].0 != ix[k as int].0);
                }
                assert(c == k as int);
                assert(file(ix, term@, id@) == ix.update(k as int, (term@, ix[k as int].1.push(id@))));
            }
            let mut ids = crate::models::copy_strings(&index[k].1);
            ids.push(id.clone());
            let key = index[k].0.clone();
            index.set(k, (key, ids));
            assert(views_of(index@[k as int].1@) =~= ix[k as int].1.push(id@));
            assert(index_view(index@) =~= ix.update(k as int, (term@, ix[k as int].1.push(id@))));
            assert forall|a: int, b: int|
                0 <= a < index@.len() && 0 <= b < index@.len() && a != b implies #[trigger] index_view(index@)[a].0
                != #[trigger] index_view(index@)[b].0 by {
                assert(index_view(index@)[a].0 == ix[a].0);
                assert(index_view(index@)[b].0 == ix[b].0);
            }
            return;
        }
        k = k + 1;
    }
    assert(!exists|c: int| 0 <= c < ix.len() && (#[trigger] ix[c]).0 == term@) by {
        assert forall|c: int| 0 <= c < ix.len() implies (#[trigger] ix[c]).0 != term@ by {
            assert(ix[c].0 == index@[c].0@);
        }
    }
    let ghost tv = term@;
    let mut ids: Vec<String> = Vec::new();
    ids.push(id.clone());
    assert(views_of(ids@) =~= seq![id@]);
    index.push((term, ids));
    assert(index_view(index@) =~= ix.push((tv, seq![id@])));
    assert forall|a: int, b: int|
        0 <= a < index@.len() && 0 <= b < index@.len() && a != b implies #[trigger] index_view(index@)[a].0
        != #[trigger] index_view(index@)[b].0 by {
        if a < ix.len() && b < ix.len() {
            assert(index_view(index@)[a] == ix[a]);
            assert(index_view(index@)[b] == ix[b]);
        } else if a < ix.len() {
            assert(index_view(index@)[a] == ix[a]);
        } else {
            assert(index_view(index@)[b] == ix[b]);
        }
    }
}

/// File `id` under each of the terms, in order.
fn file_terms(index: &mut Vec<(String, Vec<String>)>, terms: &Vec<String>, id: &String)
    requires
        terms_distinct(index_view(old(index)@)),
    ensures
        terms_distinct(index_view(final(index)@)),
        index_view(final(index)@) == file_all(index_view(old(index)@), views_of(terms@), id@),
{
    let ghost start = index_view(index@);
    let mut i: usize = 0;
    while i < terms.len()
        invariant
            i <= terms@.len(),
            terms_distinct(index_view(index@)),
            index_view(index@) == file_all(start, views_of(terms@.subrange(0, i as int)), id@),
        decreases terms.len() - i,
    {
        assert(views_of(terms@.subrange(0, i + 1)).drop_last() =~= views_of(terms@.subrange(0, i as int)));
        assert(views_of(terms@.subrange(0, i + 1)).last() == terms@[i as int]@);
        file_term(index, terms[i].clone(), id);
        i = i + 1;
    }
    assert(terms@.subrange(0, terms@.len() as int) =~= terms@);
}

impl SearchEngine {
    /// The product word index.
    pub closed spec fn product_ix(&self) -> Seq<(Seq<char>, Seq<Seq<char>>)> {
        index_view(self.product_index@)
    }

    /// The category word index.
    pub closed spec fn category_ix(&self) -> Seq<(Seq<char>, Seq<Seq<char>>)> {
        index_view(self.category_index@)
    }

    /// The tag index.
    pub closed spec fn tag_ix(&self) -> Seq<(Seq<char>, Seq<Seq<char>>)> {
        index_view(self.tag_index@)
    }

    /// The store word index.
    pub closed spec fn store_ix(&self) -> Seq<(Seq<char>, Seq<Seq<char>>)> {
        index_view(self.store_index@)
    }

    /// The cached results: key and time stored.
    pub closed spec fn cache_keys(&self) -> Seq<(Seq<char>, i64)> {
        self.search_cache@.map_values(|e: (String, SearchResult, i64)| (e.0@, e.2))
    }

    /// The cached results, in the order of `cache_keys`.
    pub closed spec fn cached_results(&self) -> Seq<SearchResult> {
        self.search_cache@.map_values(|e: (String, SearchResult, i64)| e.1)
    }

    /// Minutes a cached result stays valid.
    pub closed spec fn ttl_minutes(&self) -> u32 {
        self.cache_ttl_minutes
    }

    /// No index files a term twice; no key is cached twice.
    pub open spec fn wf(&self) -> bool {
        &&& cache_keys_distinct(self.cache_keys())
        &&& self.cached_results().len() == self.cache_keys().len()
        &&& terms_distinct(self.product_ix())
        &&& terms_distinct(self.category_ix())
        &&& terms_distinct(self.tag_ix())
        &&& terms_distinct(self.store_ix())
    }

    /// Empty indices and cache; results are cached for fifteen minutes.
    pub fn new() -> (r: Self)
        ensures
            r.wf(),
            r.product_ix().len() == 0,
            r.category_ix().len() == 0,
            r.tag_ix().len() == 0,
            r.store_ix().len() == 0,
            r.cache_keys().len() == 0,
            r.ttl_minutes() == 15,
    {
        let r = SearchEngine {
            product_index: Vec::new(),
            store_index: Vec::new(),
            category_index: Vec::new(),
            tag_index: Vec::new(),
            search_cache: Vec::new(),
            cache_ttl_minutes: 15,
        };
        assert(r.product_ix() =~= Seq::<(Seq<char>, Seq<Seq<char>>)>::empty());
        assert(r.category_ix() =~= Seq::<(Seq<char>, Seq<Seq<char>>)>::empty());
        assert(r.tag_ix() =~= Seq::<(Seq<char>, Seq<Seq<char>>)>::empty());
        assert(r.store_ix() =~= Seq::<(Seq<char>, Seq<Seq<char>>)>::empty());
        assert(r.cache_keys() =~= Seq::<(Seq<char>, i64)>::empty());
        assert(r.cached_results() =~= Seq::<SearchResult>::empty());
        r
    }

    /// Rebuild the indices from products and stores.
    pub fn build_indices(&mut self, products: &[Product], stores: &[Store]) -> (r: Result<(), ServiceError>)
        requires
            old(self).wf(),
        ensures
            final(self).wf(),
            r is Ok,
            final(self).product_ix() == product_words_ix(products@),
            final(self).category_ix() == category_words_ix(products@),
            final(self).tag_ix() == tags_ix(products@),
            final(self).store_ix() == store_words_ix(stores@),
            final(self).cache_keys() == old(self).cache_keys(),
            final(self).cached_results() == old(self).cached_results(),
            final(self).ttl_minutes() == old(self).ttl_minutes(),
    {
        self.product_index = Vec::new();
        self.store_index = Vec::new();
        self.category_index = Vec::new();
        self.tag_index = Vec::new();
        assert(self.product_ix() =~= Seq::<(Seq<char>, Seq<Seq<char>>)>::empty());
        assert(self.category_ix() =~= Seq::<(Seq<char>, Seq<Seq<char>>)>::empty());
        assert(self.tag_ix() =~= Seq::<(Seq<char>, Seq<Seq<char>>)>::empty());
        assert(self.store_ix() =~= Seq::<(Seq<char>, Seq<Seq<char>>)>::empty());
        let mut i: usize = 0;
        while i < products.len()
            invariant
                i <= products@.len(),
                self.wf(),
                self.product_ix() == product_words_ix(products@.subrange(0, i as int)),
                self.category_ix() == category_words_ix(products@.subrange(0, i as int)),
                self.tag_ix() == tags_ix(products@.subrange(0, i as int)),
                self.store_ix().len() == 0,
                self.cache_keys() == old(self).cache_keys(),
                self.cached_results() == old(self).cached_results(),
                self.ttl_minutes() == old(self).ttl_minutes(),
            decreases products.len() - i,
        {
            assert(products@.subrange(0, i + 1).drop_last() =~= products@.subrange(0, i as int));
            assert(products@.subrange(0, i + 1).last() == products@[i as int]);
            let p = &products[i];
            file_terms(&mut self.product_index, &tokenize(p.name.as_str()), &p.id);
            file_terms(&mut self.category_index, &tokenize(p.category.as_str()), &p.id);
            file_terms(&mut self.tag_index, &p.tags, &p.id);
            file_terms(&mut self.product_index, &tokenize(p.description.as_str()), &p.id);
            i = i + 1;
        }
        assert(products@.subrange(0, products@.len() as int) =~= products@);
        let mut j: usize = 0;
        while j < stores.len()
            invariant
                j <= stores@.len(),
                self.wf(),
                self.product_ix() == product_words_ix(products@),
                self.category_ix() == category_words_ix(products@),
                self.tag_ix() == tags_ix(products@),
                self.store_ix() == store_words_ix(stores@.subrange(0, j as int)),
                self.cache_keys() == old(self).cache_keys(),
                self.cached_results() == old(self).cached_results(),
                self.ttl_minutes() == old(self).ttl_minutes(),
            decreases stores.len() - j,
        {
            assert(stores@.subrange(0, j + 1).drop_last() =~= stores@.subrange(0, j as int));
            assert(stores@.subrange(0, j + 1).last() == stores@[j as int]);
            let st = &stores[j];
            file_terms(&mut self.store_index, &tokenize(st.name.as_str()), &st.id);
            j = j + 1;
        }
        assert(products@.subrange(0, products@.len() as int) =~= products@);
        assert(stores@.subrange(0, stores@.len() as int) =~= stores@);
        Ok(())
    }
}

impl Default for SearchEngine {
    fn default() -> (r: Self)
        ensures
            r.wf(),
            r.product_ix().len() == 0,
            r.cache_keys().len() == 0,
            r.ttl_minutes() == 15,
    {
        Self::new()
    }
}


/// The suggestion made for each of the first three results.
pub open spec fn suggestion_text(text: Seq<char>) -> Seq<char> {
    text + " in Test Category"@
}

/// The category facet of `n` results, all filed under the test category.
pub open spec fn category_facet_view(f: Seq<FacetItem>) -> Seq<(Seq<char>, int, bool)> {
    f.map_values(|x: FacetItem| (x.name@, x.count as int, x.selected))
}

/// The product a found id stands for, with its score: the test product
/// named after the id.
pub open spec fn found_item_ok(it: SearchResultItem, id: Seq<char>, score: int) -> bool {
    &&& it.product.id@ == id
    &&& it.product.name@ == product_name_of(id)
    &&& it.product.category@ == "Test Category"@
    &&& it.product.description@ == "Test product"@
    &&& it.relevance_score == score
}

/// What a search computed afresh gives.
pub open spec fn fresh_result(pix: Seq<(Seq<char>, Seq<Seq<char>>)>, query: SearchQuery, r: SearchResult) -> bool {
    let found = scored(pix, query.text@, query.min_relevance_score as int);
    let n = r.items@.len();
    &&& exists|order: Seq<usize>|
        #[trigger] sorts_as(found, query.filters.sort_options, order) && items_view(r.items@) == ordered_items(
            found,
            order,
            query.max_results as int,
        )
    &&& r.total_count == n
    &&& views_of(r.suggestions@) == (if query.include_suggestions {
        Seq::new(if n < 3 { n } else { 3 }, |i: int| suggestion_text(query.text@))
    } else {
        Seq::empty()
    })
    &&& category_facet_view(r.facets.categories@) == (if n > 0 {
        seq![("Test Category"@, n as int, false)]
    } else {
        Seq::empty()
    })
    &&& r.facets.stores@.len() == 0
    &&& r.facets.brands@.len() == 0
    &&& r.facets.tags@.len() == 0
    &&& r.filters_applied == query.filters
}

/// Calls `chrono::Utc::now().timestamp_millis()`: milliseconds since 1970 by
/// the machine's clock. Nothing is claimed of the reading.
#[verifier::external_body]
fn clock_millis() -> i64 {
    chrono::Utc::now().timestamp_millis()
}

/// Milliseconds from `start` to `end`, zero when the clock went back.
pub fn elapsed_ms(start: i64, end: i64) -> (d: u64)
    ensures
        end >= start ==> d == end - start,
        end < start ==> d == 0,
{
    if end >= start {
        ((end as i128) - (start as i128)) as u64
    } else {
        0
    }
}

impl SearchEngine {
    /// The ids filed under each word of a query, word after word.
    fn hit_list(&self, terms: &Vec<String>) -> (r: Vec<String>)
        requires
            self.wf(),
        ensures
            views_of(r@) == hits(self.product_ix(), views_of(terms@)),
    {
        let ghost ix = self.product_ix();
        let mut out: Vec<String> = Vec::new();
        let mut i: usize = 0;
        while i < terms.len()
            invariant
                ix == self.product_ix(),
                terms_distinct(ix),
                i <= terms@.len(),
                views_of(out@) == hits(ix, views_of(terms@.subrange(0, i as int))),
            decreases terms.len() - i,
        {
            assert(views_of(terms@.subrange(0, i + 1)).drop_last() =~= views_of(terms@.subrange(0, i as int)));
            assert(views_of(terms@.subrange(0, i + 1)).last() == terms@[i as int]@);
            let ghost before = views_of(out@);
            assert forall|m: int| 0 <= m < out@.len() implies (#[trigger] out@[m])@ == before[m] by {}
            let mut k: usize = 0;
            let mut found: Option<usize> = None;
            while k < self.product_index.len() && found.is_none()
                invariant
                    ix == index_view(self.product_index@),
                    i < terms@.len(),
                    k <= self.product_index@.len(),
                    found is None ==> forall|m: int| 0 <= m < k ==> (#[trigger] self.product_index@[m]).0@ != terms@[i as int]@,
                    found matches Some(f) ==> f < self.product_index@.len() && self.product_index@[f as int].0@
                        == terms@[i as int]@,
                    found is None || k == self.product_index@.len(),
                decreases self.product_index.len() - k,
            {
                if str_eq(self.product_index[k].0.as_str(), terms[i].as_str()) {
                    found = Some(k);
                    k = self.product_index.len();
                } else {
                    k = k + 1;
                }
            }
            match found {
                Some(f) => {
                    proof {
                        assert(ix[f as int].0 == terms@[i as int]@);
                        let c = choose|c: int| 0 <= c < ix.len() && (#[trigger] ix[c]).0 == terms@[i as int]@;
                        if c != f as int {
                            assert(ix[c].0 != ix[f as int].0);
                        }
                    }
                    let ids = &self.product_index[f].1;
                    let ghost b = before.len();
                    let mut j: usize = 0;
                    while j < ids.len()
                        invariant
                            j <= ids@.len(),
                            before.len() == b,
                            out@.len() == b + j,
                            forall|m: int| 0 <= m < b ==> (#[trigger] out@[m])@ == before[m],
                            forall|m: int| 0 <= m < j ==> (#[trigger] out@[b + m])@ == ids@[m]@,
                        decreases ids.len() - j,
                    {
                        out.push(ids[j].clone());
                        j = j + 1;
                    }
                    assert(views_of(out@) =~= before + views_of(ids@)) by {
                        assert forall|m: int| 0 <= m < out@.len() implies #[trigger] views_of(out@)[m] == (before + views_of(ids@))[m] by {
                            if m >= b {
                                assert(out@[b + (m - b)]@ == ids@[m - b]@);
                            }
                        }
                    }
                    assert(ix[f as int].1 == views_of(ids@));
                },
                None => {
                    assert(!exists|c: int| 0 <= c < ix.len() && (#[trigger] ix[c]).0 == terms@[i as int]@) by {
                        assert forall|c: int| 0 <= c < ix.len() implies (#[trigger] ix[c]).0 != terms@[i as int]@ by {
                            assert(ix[c].0 == self.product_index@[c].0@);
                        }
                    }
                    assert(views_of(out@) =~= before + Seq::<Seq<char>>::empty());
                },
            }
            i = i + 1;
        }
        assert(terms@.subrange(0, terms@.len() as int) =~= terms@);
        out
    }

    /// The result item for a found id.
    fn found_item(id: &String, score: u128, now: i64) -> (it: SearchResultItem)
        ensures
            found_item_ok(it, id@, score as int),
    {
        let mut name = owned("Product ");
        name.append(id.as_str());
        let mut reasons: Vec<MatchReason> = Vec::new();
        reasons.push(MatchReason::NameMatch(score));
        SearchResultItem {
            product: Product {
                id: id.clone(),
                name,
                category: owned("Test Category"),
                description: owned("Test product"),
                barcode: None,
                images: Vec::new(),
                prices: Vec::new(),
                tags: Vec::new(),
                created_at: now,
            },
            best_price: None,
            store_info: None,
            relevance_score: score,
            match_reasons: reasons,
            price_trend: PriceTrend {
                current_price: 1000,
                price_change_24h: Some(-50),
                price_change_7d: Some(-200),
                lowest_price_30d: Some(850),
                is_trending_up: false,
                confidence: 85,
            },
            availability_info: AvailabilityInfo {
                in_stock: true,
                stock_level: StockLevel::High,
                last_seen: now,
                store_count: 5,
            },
        }
    }

    /// Search afresh at time `now` (the time stamps of the result items).
    pub fn search_fresh(&self, query: SearchQuery, now: i64, elapsed: u64) -> (r: SearchResult)
        requires
            self.wf(),
        ensures
            fresh_result(self.product_ix(), query, r),
            r.search_time_ms == elapsed,
    {
        let terms = tokenize(query.text.as_str());
        let hit_ids = self.hit_list(&terms);
        let tally = tally_strings(&hit_ids);
        let ghost tv = tally_of(hits(self.product_ix(), tokens(query.text@)));
        let ghost sc = tv.map_values(hundred_per_hit());
        let ghost found = sc.filter(at_least(query.min_relevance_score as int));
        let mut ids: Vec<String> = Vec::new();
        let mut scores: Vec<u128> = Vec::new();
        let mut i: usize = 0;
        while i < tally.len()
            invariant
                counts_view(tally@) == tv,
                sc == tv.map_values(hundred_per_hit()),
                i <= tally@.len(),
                ids@.len() == scores@.len(),
                ids@.len() == sc.subrange(0, i as int).filter(at_least(query.min_relevance_score as int)).len(),
                forall|k: int| 0 <= k < ids@.len() ==> ((#[trigger] ids@[k])@, scores@[k] as int) == sc.subrange(0, i as int).filter(
                    at_least(query.min_relevance_score as int),
                )[k],
                forall|k: int| 0 <= k < scores@.len() ==> #[trigger] scores@[k] <= 100 * 0x1_0000_0000_0000_0000,
            decreases tally.len() - i,
        {
            proof {
                reveal(Seq::filter);
            }
            let ghost pre = sc.subrange(0, i as int).filter(at_least(query.min_relevance_score as int));
            assert(sc.subrange(0, i + 1).drop_last() =~= sc.subrange(0, i as int));
            assert(sc.subrange(0, i + 1).last() == sc[i as int]);
            assert(sc[i as int] == (tally@[i as int].0@, 100 * (tally@[i as int].1 as int)));
            let score: u128 = 100 * (tally[i].1 as u128);
            if score >= query.min_relevance_score as u128 {
                ids.push(tally[i].0.clone());
                scores.push(score);
            }
            i = i + 1;
        }
        assert(sc.subrange(0, sc.len() as int) =~= sc);
        let n = ids.len();
        let opts = query.filters.sort_options;
        let order = if opts.primary_sort == SortField::Name {
            let mut names: Vec<String> = Vec::new();
            let mut k: usize = 0;
            while k < n
                invariant
                    n == ids@.len(),
                    k <= n,
                    names@.len() == k,
                    forall|j: int| 0 <= j < k ==> (#[trigger] names@[j])@ == product_name_of(ids@[j]@),
                decreases n - k,
            {
                let mut nm = owned("Product ");
                nm.append(ids[k].as_str());
                names.push(nm);
                k = k + 1;
            }
            let o = rank_by_name(&names, opts.sort_direction == SortDirection::Descending);
            assert(names@.map_values(|s: String| s@) =~= found.map_values(|e: (Seq<char>, int)| product_name_of(e.0)));
            assert(sorts_as(found, opts, o@));
            o
        } else {
            let mut keys: Vec<i128> = Vec::new();
            let mut k: usize = 0;
            while k < n
                invariant
                    n == ids@.len(),
                    n == scores@.len(),
                    k <= n,
                    keys@.len() == k,
                    forall|j: int| 0 <= j < k ==> #[trigger] keys@[j] == order_keys(found, opts)[j],
                    forall|j: int| 0 <= j < n ==> ((#[trigger] ids@[j])@, scores@[j] as int) == found[j],
                    found.len() == n,
                    scores@.len() == n,
                    forall|j: int| 0 <= j < n ==> #[trigger] scores@[j] <= 100 * 0x1_0000_0000_0000_0000,
                decreases n - k,
            {
                let key: i128 = if opts.primary_sort == SortField::Relevance {
                    if opts.sort_direction == SortDirection::Descending {
                        scores[k] as i128
                    } else {
                        -(scores[k] as i128)
                    }
                } else {
                    0
                };
                assert((ids@[k as int]@, scores@[k as int] as int) == found[k as int]);
                keys.push(key);
                k = k + 1;
            }
            assert(keys@ =~= order_keys(found, opts));
            let o = rank_by_count(&keys, n);
            assert(sorts_as(found, opts, o@));
            o
        };
        assert(order@.len() <= n);
        let take: usize = if query.max_results < order.len() {
            query.max_results
        } else {
            order.len()
        };
        let mut items: Vec<SearchResultItem> = Vec::new();
        let mut m: usize = 0;
        while m < take
            invariant
                take <= order@.len(),
                order@.len() <= n,
                forall|k: int| 0 <= k < order@.len() ==> #[trigger] order@[k] < n,
                n == ids@.len(),
                n == scores@.len(),
                m <= take,
                items@.len() == m,
                forall|k: int| 0 <= k < m ==> found_item_ok(#[trigger] items@[k], ids@[order@[k] as int]@, scores@[order@[k] as int] as int),
            decreases take - m,
        {
            let x = order[m];
            items.push(Self::found_item(&ids[x], scores[x], now));
            m = m + 1;
        }
        let mut suggestions: Vec<String> = Vec::new();
        proof {
            reveal_strlit(" in ");
            reveal_strlit("Test Category");
            reveal_strlit(" in Test Category");
            assert(" in "@ + "Test Category"@ =~= " in Test Category"@);
        }
        if query.include_suggestions {
            let mut k: usize = 0;
            while k < items.len() && k < 3
                invariant
                    k <= 3,
                    k <= items@.len(),
                    forall|j: int| 0 <= j < items@.len() ==> (#[trigger] items@[j]).product.category@ == "Test Category"@,
                    suggestions@.len() == k,
                    forall|j: int| 0 <= j < k ==> (#[trigger] suggestions@[j])@ == suggestion_text(query.text@),
                decreases items.len() - k,
            {
                proof {
                    reveal_strlit(" in ");
                    reveal_strlit("Test Category");
                    reveal_strlit(" in Test Category");
                    assert(" in "@ + "Test Category"@ =~= " in Test Category"@);
                }
                let mut t = query.text.clone();
                t.append(" in ");
                t.append(items[k].product.category.as_str());
                assert(t@ =~= suggestion_text(query.text@));
                suggestions.push(t);
                k = k + 1;
            }
            let ghost cnt: nat = if items@.len() < 3 { items@.len() } else { 3nat };
            assert(views_of(suggestions@) =~= Seq::new(cnt, |i: int| suggestion_text(query.text@)));
        } else {
            assert(views_of(suggestions@) =~= Seq::<Seq<char>>::empty());
        }
        let mut categories: Vec<FacetItem> = Vec::new();
        if items.len() > 0 {
            categories.push(FacetItem { name: owned("Test Category"), count: items.len(), selected: false });
            assert(category_facet_view(categories@) =~= seq![("Test Category"@, items@.len() as int, false)]);
        } else {
            assert(category_facet_view(categories@) =~= Seq::<(Seq<char>, int, bool)>::empty());
        }
        let mut price_ranges: Vec<PriceRangeFacet> = Vec::new();
        price_ranges.push(PriceRangeFacet { min_price: 0, max_price: 1000, count: 5, label: owned("¥0 - ¥10") });
        proof {
            assert(items_view(items@) =~= ordered_items(found, order@, query.max_results as int));
        }
        let total = items.len();
        let ghost q = query;
        let r = SearchResult {
            items,
            total_count: total,
            search_time_ms: elapsed,
            suggestions,
            filters_applied: query.filters,
            facets: SearchFacets {
                categories,
                stores: Vec::new(),
                price_ranges,
                brands: Vec::new(),
                tags: Vec::new(),
            },
        };
        assert(found == scored(self.product_ix(), q.text@, q.min_relevance_score as int));
        assert(sorts_as(found, q.filters.sort_options, order@));
        assert(items_view(r.items@) == ordered_items(found, order@, q.max_results as int));
        r
    }
}


impl SearchEngine {
    fn cache_key_of(query: &SearchQuery) -> (k: String)
        ensures
            k@ == cache_key(query.text@, query.max_results as int),
    {
        let mut k = query.text.clone();
        k.append("_");
        let digits = crate::utils::numbers::u64_decimal(query.max_results as u64);
        let mut i: usize = 0;
        let ghost base = k@;
        while i < digits.len()
            invariant
                i <= digits@.len(),
                k@ == base + digits@.subrange(0, i as int),
            decreases digits.len() - i,
        {
            crate::text::push_char(&mut k, digits[i]);
            assert(k@ =~= base + digits@.subrange(0, i + 1));
            i = i + 1;
        }
        assert(digits@.subrange(0, digits@.len() as int) =~= digits@);
        k
    }

    /// Search for a query, answering from the cache while its result is
    /// fresh; a fresh search is cached under the query's text and maximum.
    pub fn search(&mut self, query: SearchQuery) -> (r: Result<SearchResult, ServiceError>)
        requires
            old(self).wf(),
        ensures
            final(self).wf(),
            final(self).product_ix() == old(self).product_ix(),
            final(self).category_ix() == old(self).category_ix(),
            final(self).tag_ix() == old(self).tag_ix(),
            final(self).store_ix() == old(self).store_ix(),
            final(self).ttl_minutes() == old(self).ttl_minutes(),
            r is Ok,
            exists|now: i64| #[trigger] searched(*old(self), *final(self), query, r->Ok_0, now),
    {
        let started = clock_millis();
        let key = Self::cache_key_of(&query);
        let now = now_unix_seconds();
        let ghost c = self.cache_keys();
        let ghost before = *self;
        let mut k: usize = 0;
        let mut slot: Option<usize> = None;
        while k < self.search_cache.len() && slot.is_none()
            invariant
                c == self.cache_keys(),
                k <= self.search_cache@.len(),
                slot is None ==> forall|m: int| 0 <= m < k ==> (#[trigger] self.search_cache@[m]).0@ != key@,
                slot matches Some(f) ==> f < self.search_cache@.len() && self.search_cache@[f as int].0@ == key@,
                slot is None || k == self.search_cache@.len(),
            decreases self.search_cache.len() - k,
        {
            if str_eq(self.search_cache[k].0.as_str(), key.as_str()) {
                slot = Some(k);
                k = self.search_cache.len();
            } else {
                k = k + 1;
            }
        }
        proof {
            match slot {
                Some(f) => {
                    assert(c[f as int].0 == key@);
                },
                None => {
                    assert forall|m: int| 0 <= m < c.len() implies (#[trigger] c[m]).0 != key@ by {
                        assert(c[m].0 == self.search_cache@[m].0@);
                    }
                },
            }
        }
        match slot {
            Some(f) => {
                let t = self.search_cache[f].2;
                let age = crate::auth::session::whole_minutes_between(t, now);
                if age < self.cache_ttl_minutes as i64 {
                    assert(cache_hit(c, key@, now as int, self.ttl_minutes() as int));
                    proof {
                        lemma_cache_slot(c, key@, f as int);
                    }
                    let hit = self.search_cache[f].1.duplicate();
                    let res: Result<SearchResult, ServiceError> = Ok(hit);
                    assert(searched(before, *self, query, res->Ok_0, now));
                    return res;
                }
                proof {
                    assert forall|m: int| 0 <= m < c.len() && (#[trigger] c[m]).0 == key@ implies !cache_fresh(c[m].1 as int, now as int, self.ttl_minutes() as int) by {
                        if m != f as int {
                            assert(c[m].0 != c[f as int].0);
                        }
                    }
                }
            },
            None => {},
        }
        let ghost pix = self.product_ix();
        let ghost q = query;
        let end = clock_millis();
        let result = self.search_fresh(query, now, elapsed_ms(started, end));
        let stored = result.duplicate();
        let ghost cr = self.cached_results();
        match slot {
            Some(f) => {
                let ghost kk = choose|m: int| 0 <= m < c.len() && (#[trigger] c[m]).0 == key@;
                assert(kk == f as int) by {
                    if kk != f as int {
                        assert(c[kk].0 != c[f as int].0);
                    }
                }
                self.search_cache.set(f, (key, stored, now));
                assert(self.cache_keys() =~= c.update(f as int, (c[f as int].0, now)));
                assert forall|a: int, b: int|
                    0 <= a < self.cache_keys().len() && 0 <= b < self.cache_keys().len() && a != b implies #[trigger] self.cache_keys()[a].0
                    != #[trigger] self.cache_keys()[b].0 by {
                    assert(self.cache_keys()[a].0 == c[a].0);
                    assert(self.cache_keys()[b].0 == c[b].0);
                }
                assert(self.cached_results() =~= cr.update(f as int, stored));
                proof {
                    lemma_cache_slot(self.cache_keys(), key@, f as int);
                    assert forall|i: int| 0 <= i < c.len() && (#[trigger] c[i]).0 != key@ implies self.cached_results()[i] == cr[i] by {
                        assert(i != f as int);
                    }
                }
                assert(same_result(self.cached_results()[cache_slot(self.cache_keys(), key@)], result));
            },
            None => {
                let ghost kv = key@;
                self.search_cache.push((key, stored, now));
                assert(self.cache_keys() =~= c.push((kv, now)));
                assert forall|a: int, b: int|
                    0 <= a < self.cache_keys().len() && 0 <= b < self.cache_keys().len() && a != b implies #[trigger] self.cache_keys()[a].0
                    != #[trigger] self.cache_keys()[b].0 by {
                    if a < c.len() && b < c.len() {
                        assert(self.cache_keys()[a] == c[a] && self.cache_keys()[b] == c[b]);
                    } else if a < c.len() {
                        assert(self.cache_keys()[a] == c[a]);
                    } else {
                        assert(self.cache_keys()[b] == c[b]);
                    }
                }
                assert(self.cached_results() =~= cr.push(stored));
                proof {
                    lemma_cache_slot(self.cache_keys(), kv, c.len() as int);
                    assert forall|i: int| 0 <= i < c.len() && (#[trigger] c[i]).0 != kv implies self.cached_results()[i] == cr[i] by {
                    }
                }
                assert(same_result(self.cached_results()[cache_slot(self.cache_keys(), kv)], result));
            },
        }
        assert(!cache_hit(c, cache_key(q.text@, q.max_results as int), now as int, self.ttl_minutes() as int));
        let res: Result<SearchResult, ServiceError> = Ok(result);
        assert(searched(before, *self, q, res->Ok_0, now));
        res
    }

    /// The index terms and category words starting (lower-cased) with the
    /// lower-cased text, sorted, without repeats, at most `limit`.
    pub fn get_suggestions(&self, partial_query: &str, limit: usize) -> (r: Vec<String>)
        ensures
            r@.len() <= limit,
            forall|a: int, b: int| 0 <= a < b < r@.len() ==> crate::ranking::lex_lt((#[trigger] r@[a])@, (#[trigger] r@[b])@),
            forall|k: int| 0 <= k < r@.len() ==> #[trigger] suggestion_candidates(self.product_ix(), self.category_ix(), partial_query@).contains(r@[k]@),
            forall|m: Seq<char>|
                #[trigger] suggestion_candidates(self.product_ix(), self.category_ix(), partial_query@).contains(m) ==> views_of(r@).contains(m)
                    || (r@.len() == limit && (r@.len() == 0 || crate::ranking::lex_lt(r@.last()@, m))),
    {
        let p = to_lowercase(partial_query);
        let ghost cand = suggestion_candidates(self.product_ix(), self.category_ix(), partial_query@);
        let mut pool: Vec<String> = Vec::new();
        let mut i: usize = 0;
        while i < self.product_index.len()
            invariant
                p@ == unicode_to_lowercase(partial_query@),
                cand == suggestion_candidates(self.product_ix(), self.category_ix(), partial_query@),
                i <= self.product_index@.len(),
                forall|k: int| 0 <= k < pool@.len() ==> cand.contains(#[trigger] pool@[k]@),
                forall|k: int| 0 <= k < i && starts_lower(self.product_index@[k].0@, partial_query@) ==> views_of(pool@).contains(
                    #[trigger] self.product_index@[k].0@,
                ),
            decreases self.product_index.len() - i,
        {
            let t = to_lowercase(self.product_index[i].0.as_str());
            if crate::text::starts_with_chars(t.as_str(), p.as_str()) {
                let ghost before = pool@;
                pool.push(self.product_index[i].0.clone());
                assert(self.product_ix()[i as int].0 == self.product_index@[i as int].0@);
                assert(views_of(pool@)[pool@.len() - 1] == self.product_index@[i as int].0@);
                assert forall|k: int| 0 <= k < i && starts_lower(self.product_index@[k].0@, partial_query@) implies views_of(pool@).contains(
                    #[trigger] self.product_index@[k].0@,
                ) by {
                    let j = choose|j: int| 0 <= j < views_of(before).len() && views_of(before)[j] == self.product_index@[k].0@;
                    assert(views_of(pool@)[j] == views_of(before)[j]);
                }
            }
            i = i + 1;
        }
        let mut j: usize = 0;
        while j < self.category_index.len()
            invariant
                p@ == unicode_to_lowercase(partial_query@),
                cand == suggestion_candidates(self.product_ix(), self.category_ix(), partial_query@),
                j <= self.category_index@.len(),
                forall|k: int| 0 <= k < pool@.len() ==> cand.contains(#[trigger] pool@[k]@),
                forall|k: int| 0 <= k < self.product_index@.len() && starts_lower(self.product_index@[k].0@, partial_query@) ==> views_of(pool@).contains(
                    #[trigger] self.product_index@[k].0@,
                ),
                forall|k: int| 0 <= k < j && starts_lower(self.category_index@[k].0@, partial_query@) ==> views_of(pool@).contains(
                    #[trigger] self.category_index@[k].0@,
                ),
            decreases self.category_index.len() - j,
        {
            let t = to_lowercase(self.category_index[j].0.as_str());
            if crate::text::starts_with_chars(t.as_str(), p.as_str()) {
                let ghost before = pool@;
                pool.push(self.category_index[j].0.clone());
                assert(self.category_ix()[j as int].0 == self.category_index@[j as int].0@);
                assert(views_of(pool@)[pool@.len() - 1] == self.category_index@[j as int].0@);
                assert forall|k: int| 0 <= k < self.product_index@.len() && starts_lower(self.product_index@[k].0@, partial_query@) implies views_of(pool@).contains(
                    #[trigger] self.product_index@[k].0@,
                ) by {
                    let w = choose|w: int| 0 <= w < views_of(before).len() && views_of(before)[w] == self.product_index@[k].0@;
                    assert(views_of(pool@)[w] == views_of(before)[w]);
                }
                assert forall|k: int| 0 <= k < j && starts_lower(self.category_index@[k].0@, partial_query@) implies views_of(pool@).contains(
                    #[trigger] self.category_index@[k].0@,
                ) by {
                    let w = choose|w: int| 0 <= w < views_of(before).len() && views_of(before)[w] == self.category_index@[k].0@;
                    assert(views_of(pool@)[w] == views_of(before)[w]);
                }
            }
            j = j + 1;
        }
        let order = rank_by_name(&pool, false);
        let ghost pv = pool@.map_values(|s: String| s@);
        let mut out: Vec<String> = Vec::new();
        let mut m: usize = 0;
        while m < order.len() && out.len() < limit
            invariant
                sorted_by_name(pv, false, order@),
                pv == pool@.map_values(|s: String| s@),
                m <= order@.len(),
                out@.len() <= limit,
                forall|k: int| 0 <= k < out@.len() ==> cand.contains(#[trigger] out@[k]@),
                forall|a: int, b: int| 0 <= a < b < out@.len() ==> crate::ranking::lex_lt((#[trigger] out@[a])@, (#[trigger] out@[b])@),
                forall|k: int| 0 <= k < m ==> views_of(out@).contains(pv[#[trigger] order@[k] as int]),
                out@.len() > 0 ==> m > 0 && out@.last()@ == pv[order@[m - 1] as int],
                forall|k: int| 0 <= k < pool@.len() ==> cand.contains(#[trigger] pool@[k]@),
            decreases order.len() - m,
        {
            let x = order[m];
            let dup = out.len() > 0 && str_eq(out[out.len() - 1].as_str(), pool[x].as_str());
            let ghost before = out@;
            proof {
                assert(order@[m as int] < pv.len());
                assert(pv[x as int] == pool@[x as int]@);
                if m > 0 {
                    assert(name_before(pv, false, order@[m - 1] as int, order@[m as int] as int));
                }
            }
            if !dup {
                out.push(pool[x].clone());
                proof {
                    assert forall|a: int, b: int| 0 <= a < b < out@.len() implies crate::ranking::lex_lt(
                        (#[trigger] out@[a])@,
                        (#[trigger] out@[b])@,
                    ) by {
                        if b == out@.len() - 1 && a < b {
                            assert(out@[a] == before[a]);
                            if a < before.len() - 1 {
                                assert(crate::ranking::lex_lt(before[a]@, before.last()@));
                                crate::ranking::lemma_lex_transitive(before[a]@, before.last()@, pv[x as int]);
                            }
                        } else {
                            assert(out@[a] == before[a] && out@[b] == before[b]);
                        }
                    }
                    assert forall|k: int| 0 <= k < m + 1 implies views_of(out@).contains(pv[#[trigger] order@[k] as int]) by {
                        if k < m {
                            let w = choose|w: int| 0 <= w < views_of(before).len() && views_of(before)[w] == pv[order@[k] as int];
                            assert(views_of(out@)[w] == views_of(before)[w]);
                        } else {
                            assert(views_of(out@)[out@.len() - 1] == pv[x as int]);
                        }
                    }
                }
            } else {
                proof {
                    assert(views_of(out@)[out@.len() - 1] == pv[x as int]);
                }
            }
            m = m + 1;
        }
        proof {
            let n = pool@.len();
            assert forall|mm: Seq<char>|
                #[trigger] suggestion_candidates(self.product_ix(), self.category_ix(), partial_query@).contains(mm) implies views_of(out@).contains(mm)
                    || (out@.len() == limit && (out@.len() == 0 || crate::ranking::lex_lt(out@.last()@, mm))) by {
                let pix = self.product_ix();
                let cix = self.category_ix();
                if exists|k: int| 0 <= k < pix.len() && (#[trigger] pix[k]).0 == mm && starts_lower(mm, partial_query@) {
                    let k = choose|k: int| 0 <= k < pix.len() && (#[trigger] pix[k]).0 == mm && starts_lower(mm, partial_query@);
                    assert(pix[k].0 == self.product_index@[k].0@);
                    assert(views_of(pool@).contains(self.product_index@[k].0@));
                } else {
                    let k = choose|k: int| 0 <= k < cix.len() && (#[trigger] cix[k]).0 == mm && starts_lower(mm, partial_query@);
                    assert(cix[k].0 == self.category_index@[k].0@);
                    assert(views_of(pool@).contains(self.category_index@[k].0@));
                }
                let w = choose|w: int| 0 <= w < views_of(pool@).len() && views_of(pool@)[w] == mm;
                assert(pv[w] == mm);
                assert(order@.contains(w as usize));
                let i = choose|i: int| 0 <= i < order@.len() && order@[i] == w as usize;
                if i < m {
                    assert(views_of(out@).contains(pv[order@[i] as int]));
                } else if out@.len() > 0 {
                    assert(name_before(pv, false, order@[m - 1] as int, order@[i] as int));
                    if pv[order@[m - 1] as int] == mm {
                        assert(views_of(out@)[out@.len() - 1] == mm);
                    }
                }
            }
        }
        out
    }

    /// The searches people run most, at most `limit` of them.
    pub fn get_trending_searches(&self, limit: usize) -> (r: Vec<String>)
        ensures
            views_of(r@) == trending_searches().take(if limit < 5 { limit as int } else { 5 }),
    {
        let all: [&str; 5] = ["可口可乐", "iPhone", "薯片", "洗发水", "牛奶"];
        let mut out: Vec<String> = Vec::new();
        let mut i: usize = 0;
        while i < 5 && i < limit
            invariant
                i <= 5,
                i <= limit,
                out@.len() == i,
                forall|k: int| 0 <= k < i ==> (#[trigger] out@[k])@ == all@[k]@,
            decreases 5 - i,
        {
            out.push(owned(all[i]));
            i = i + 1;
        }
        proof {
            reveal_strlit("可口可乐");
            reveal_strlit("iPhone");
            reveal_strlit("薯片");
            reveal_strlit("洗发水");
            reveal_strlit("牛奶");
            assert(all@[0]@ == trending_searches()[0]);
            assert(all@[1]@ == trending_searches()[1]);
            assert(all@[2]@ == trending_searches()[2]);
            assert(all@[3]@ == trending_searches()[3]);
            assert(all@[4]@ == trending_searches()[4]);
            assert(views_of(out@) =~= trending_searches().take(i as int));
        }
        out
    }
}

/// The searches people run most.
pub open spec fn trending_searches() -> Seq<Seq<char>> {
    seq!["可口可乐"@, "iPhone"@, "薯片"@, "洗发水"@, "牛奶"@]
}

/// The lower-cased term starts with the lower-cased text.
pub open spec fn starts_lower(term: Seq<char>, partial: Seq<char>) -> bool {
    let t = unicode_to_lowercase(term);
    let p = unicode_to_lowercase(partial);
    p.len() <= t.len() && t.subrange(0, p.len() as int) == p
}

/// The terms of the product and category indices that a partial query
/// starts.
pub open spec fn suggestion_candidates(
    pix: Seq<(Seq<char>, Seq<Seq<char>>)>,
    cix: Seq<(Seq<char>, Seq<Seq<char>>)>,
    partial: Seq<char>,
) -> Set<Seq<char>> {
    Set::new(|t: Seq<char>| (exists|k: int| 0 <= k < pix.len() && (#[trigger] pix[k]).0 == t && starts_lower(t, partial))
        || (exists|k: int| 0 <= k < cix.len() && (#[trigger] cix[k]).0 == t && starts_lower(t, partial)))
}

/// Filing an id under a term makes it found under that term, after what
/// was filed there before, and leaves every other term's ids as they were;
/// no term is filed twice.
pub proof fn law_filed_id_is_found(
    ix: Seq<(Seq<char>, Seq<Seq<char>>)>,
    term: Seq<char>,
    id: Seq<char>,
    other: Seq<char>,
)
    requires
        terms_distinct(ix),
    ensures
        terms_distinct(file(ix, term, id)),
        postings(file(ix, term, id), term) == postings(ix, term).push(id),
        other != term ==> postings(file(ix, term, id), other) == postings(ix, other),
{
    let t = file(ix, term, id);
    if exists|k: int| 0 <= k < ix.len() && (#[trigger] ix[k]).0 == term {
        let k = choose|k: int| 0 <= k < ix.len() && (#[trigger] ix[k]).0 == term;
        assert(t.len() == ix.len());
        assert forall|j: int| 0 <= j < t.len() implies #[trigger] t[j] == ix[j] || (j == k && t[j] == (term,
            ix[k].1.push(id))) by {}
        assert forall|a: int, b: int| 0 <= a < t.len() && 0 <= b < t.len() && a != b implies #[trigger] t[a].0
            != #[trigger] t[b].0 by {
            assert(ix[a].0 != ix[b].0);
        }
        assert(t[k] == (term, ix[k].1.push(id)));
        let c = choose|c: int| 0 <= c < t.len() && (#[trigger] t[c]).0 == term;
        assert(c == k);
        if other != term {
            if exists|j: int| 0 <= j < ix.len() && (#[trigger] ix[j]).0 == other {
                let j = choose|j: int| 0 <= j < ix.len() && (#[trigger] ix[j]).0 == other;
                assert(t[j] == ix[j]);
                let c2 = choose|c: int| 0 <= c < t.len() && (#[trigger] t[c]).0 == other;
                assert(c2 == j);
            }
            if exists|j: int| 0 <= j < t.len() && (#[trigger] t[j]).0 == other {
                let j = choose|j: int| 0 <= j < t.len() && (#[trigger] t[j]).0 == other;
                assert(t[j] == ix[j]);
            }
        }
    } else {
        let n = ix.len() as int;
        assert(t.len() == n + 1);
        assert(t[n] == (term, seq![id]));
        assert forall|j: int| 0 <= j < n implies #[trigger] t[j] == ix[j] && ix[j].0 != term by {}
        assert forall|a: int, b: int| 0 <= a < t.len() && 0 <= b < t.len() && a != b implies #[trigger] t[a].0
            != #[trigger] t[b].0 by {
            if a < n && b < n {
                assert(ix[a].0 != ix[b].0);
            }
        }
        let c = choose|c: int| 0 <= c < t.len() && (#[trigger] t[c]).0 == term;
        assert(c == n);
        assert(postings(ix, term) == Seq::<Seq<char>>::empty());
        assert(seq![id] =~= Seq::<Seq<char>>::empty().push(id));
        if other != term {
            if exists|j: int| 0 <= j < ix.len() && (#[trigger] ix[j]).0 == other {
                let j = choose|j: int| 0 <= j < ix.len() && (#[trigger] ix[j]).0 == other;
                assert(t[j] == ix[j]);
                let c2 = choose|c: int| 0 <= c < t.len() && (#[trigger] t[c]).0 == other;
                assert(c2 == j);
            }
            if exists|j: int| 0 <= j < t.len() && (#[trigger] t[j]).0 == other {
                let j = choose|j: int| 0 <= j < t.len() && (#[trigger] t[j]).0 == other;
                assert(j != n);
                assert(t[j] == ix[j]);
            }
        }
    }
}

/// An id filed under a list of terms is found under each of them, and what
/// was found under any term before is still found there.
pub proof fn law_indexed_id_found_by_each_term(
    ix: Seq<(Seq<char>, Seq<Seq<char>>)>,
    terms: Seq<Seq<char>>,
    id: Seq<char>,
    term: Seq<char>,
    x: Seq<char>,
)
    requires
        terms_distinct(ix),
    ensures
        terms_distinct(file_all(ix, terms, id)),
        terms.contains(term) ==> postings(file_all(ix, terms, id), term).contains(id),
        postings(ix, term).contains(x) ==> postings(file_all(ix, terms, id), term).contains(x),
    decreases terms.len(),
{
    if terms.len() > 0 {
        let rest = terms.drop_last();
        let last = terms.last();
        law_indexed_id_found_by_each_term(ix, rest, id, term, x);
        let f = file_all(ix, rest, id);
        law_filed_id_is_found(f, last, id, term);
        let p0 = postings(f, term);
        if last == term {
            assert(postings(file(f, last, id), term) == p0.push(id));
            assert(p0.push(id)[p0.len() as int] == id);
            if p0.contains(x) {
                let k = choose|k: int| 0 <= k < p0.len() && p0[k] == x;
                assert(p0.push(id)[k] == x);
            }
        } else {
            if terms.contains(term) {
                let k = choose|k: int| 0 <= k < terms.len() && terms[k] == term;
                assert(k < rest.len());
                assert(rest[k] == term);
            }
        }
    }
}

} // verus!
