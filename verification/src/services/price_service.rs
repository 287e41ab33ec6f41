//! Price submissions: checking, verifying, querying and summarising the
//! prices users report. Prices are hundredths of the currency unit.
use vstd::prelude::*;
use crate::error::now_unix_seconds;
use crate::models::{is_verified, PriceRecord};
use crate::ranking::{price_leq, rank_by_count, ranked_top, sorted_prices};
use crate::services::{service_failure_of, ServiceError, ServiceFailure};
use crate::table::{
    copy_flagged, distinct_strings, find_key, first_appearances, flagged, has_key, key_index,
    keys_distinct, lemma_flagged_filter, lemma_key_index, lemma_update_same_key, lookup_key, put,
    put_record, views_of, Record,
};
use crate::text::{owned, str_eq};

verus! {

broadcast use vstd::string::group_string_axioms;

/// The largest price accepted: one million units.
pub const MAX_PRICE: i64 = 100_000_000;

/// Which records a query selects.
#[derive(Debug, Clone, Copy, PartialEq, Eq, Structural)]
pub enum PriceQuery {
    Product,
    VerifiedProduct,
    Store,
    User,
}

/// The record names this product.
pub open spec fn names_product(p: PriceRecord, product_id: Seq<char>) -> bool {
    match p.product_id {
        Some(x) => x@ == product_id,
        None => false,
    }
}

/// The record was submitted by this user.
pub open spec fn by_user(p: PriceRecord, user_id: Seq<char>) -> bool {
    match p.user_id {
        Some(x) => x@ == user_id,
        None => false,
    }
}

/// What a query selects.
pub open spec fn selects(q: PriceQuery, key: Seq<char>, p: PriceRecord) -> bool {
    match q {
        PriceQuery::Product => names_product(p, key),
        PriceQuery::VerifiedProduct => names_product(p, key) && is_verified(p),
        PriceQuery::Store => p.store_id@ == key,
        PriceQuery::User => by_user(p, key),
    }
}

/// A query as a predicate.
pub open spec fn query_pred(q: PriceQuery, key: Seq<char>) -> spec_fn(PriceRecord) -> bool {
    |p: PriceRecord| selects(q, key, p)
}

/// The first record with the lowest price, if any.
pub open spec fn lowest_of(s: Seq<PriceRecord>) -> Option<PriceRecord>
    decreases s.len(),
{
    if s.len() == 0 {
        None
    } else {
        match lowest_of(s.drop_last()) {
            None => Some(s.last()),
            Some(m) => if s.last().price < m.price {
                Some(s.last())
            } else {
                Some(m)
            },
        }
    }
}

/// The first record with the latest time, if any.
pub open spec fn latest_of(s: Seq<PriceRecord>) -> Option<PriceRecord>
    decreases s.len(),
{
    if s.len() == 0 {
        None
    } else {
        match latest_of(s.drop_last()) {
            None => Some(s.last()),
            Some(m) => if s.last().timestamp > m.timestamp {
                Some(s.last())
            } else {
                Some(m)
            },
        }
    }
}

/// The product id of a record, empty when it names none.
pub open spec fn product_key(p: PriceRecord) -> Seq<char> {
    match p.product_id {
        Some(x) => x@,
        None => Seq::empty(),
    }
}

/// Records of the store `key`.
pub open spec fn at_store(key: Seq<char>) -> spec_fn(PriceRecord) -> bool {
    |p: PriceRecord| p.store_id@ == key
}

/// Records of the product `key`.
pub open spec fn of_product_key(key: Seq<char>) -> spec_fn(PriceRecord) -> bool {
    |p: PriceRecord| product_key(p) == key
}

/// Verified records of a product seen after `cutoff`.
pub open spec fn recent_verified(cutoff: int) -> spec_fn(PriceRecord) -> bool {
    |p: PriceRecord| p.product_id is Some && p.timestamp > cutoff && is_verified(p)
}

/// The latest verified price of a product at one store.
#[derive(Debug)]
pub struct StorePriceComparison {
    pub store_id: String,
    pub price: i64,
    pub is_on_sale: bool,
    pub timestamp: i64,
}

/// One point of a product's price history.
#[derive(Debug)]
pub struct PriceHistoryPoint {
    pub price: i64,
    pub timestamp: i64,
    pub store_id: String,
    pub is_on_sale: bool,
}

/// Figures over a product's verified prices: lowest, highest, their sum,
/// the two middle values of the sorted prices (equal when the count is
/// odd), the number of records, of stores and of sale prices.
#[derive(Debug)]
pub struct PriceStatistics {
    pub min_price: i64,
    pub max_price: i64,
    pub price_sum: i128,
    pub median_low: i64,
    pub median_high: i64,
    pub total_records: usize,
    pub stores_count: usize,
    pub sale_count: usize,
}

/// A product with many recent verified prices.
#[derive(Debug)]
pub struct TrendingPrice {
    pub product_id: String,
    pub latest_price: i64,
    pub activity_count: usize,
    pub timestamp: i64,
}

/// A target price that the lowest verified price has reached.
#[derive(Debug)]
pub struct PriceAlert {
    pub product_id: String,
    pub target_price: i64,
    pub current_price: i64,
    pub store_id: String,
    pub timestamp: i64,
}

/// Counts of records by review status, and of distinct products and stores.
#[derive(Debug, Clone, Copy)]
pub struct SubmissionStats {
    pub total_submissions: usize,
    pub verified_count: usize,
    pub pending_count: usize,
    pub rejected_count: usize,
    pub unique_products: usize,
    pub unique_stores: usize,
}

/// The rule on submitted prices.
pub open spec fn price_outcome(price: int) -> Result<(), Seq<char>> {
    if price <= 0 {
        Err("Price must be positive"@)
    } else if price > MAX_PRICE {
        Err("Price too high"@)
    } else {
        Ok(())
    }
}

/// The message of a missing record.
pub open spec fn record_not_found(id: Seq<char>) -> ServiceFailure {
    ServiceFailure::NotFound("Price record "@ + id + " not found"@)
}

/// Sum of the prices.
pub open spec fn price_total(s: Seq<PriceRecord>) -> int
    decreases s.len(),
{
    if s.len() == 0 {
        0
    } else {
        price_total(s.drop_last()) + s.last().price
    }
}

/// The prices of the records.
pub open spec fn prices_of(s: Seq<PriceRecord>) -> Seq<i64> {
    s.map_values(|p: PriceRecord| p.price)
}

/// The store ids of the records.
pub open spec fn store_keys(s: Seq<PriceRecord>) -> Seq<Seq<char>> {
    s.map_values(|p: PriceRecord| p.store_id@)
}

/// The product ids of the records.
pub open spec fn product_keys(s: Seq<PriceRecord>) -> Seq<Seq<char>> {
    s.map_values(|p: PriceRecord| product_key(p))
}

/// The alerts that a list of targets raises, in target order.
pub open spec fn alerts_for(records: Seq<PriceRecord>, targets: Seq<(Seq<char>, i64)>) -> Seq<
    (Seq<char>, i64, PriceRecord),
>
    decreases targets.len(),
{
    if targets.len() == 0 {
        Seq::empty()
    } else {
        let r = alerts_for(records, targets.drop_last());
        let (pid, target) = targets.last();
        match lowest_of(records.filter(query_pred(PriceQuery::VerifiedProduct, pid))) {
            Some(m) => if m.price <= target {
                r.push((pid, target, m))
            } else {
                r
            },
            None => r,
        }
    }
}

/// The latest record of the store `key` among `f` has these values.
pub open spec fn store_latest_is(f: Seq<PriceRecord>, key: Seq<char>, price: i64, sale: bool, ts: i64) -> bool {
    match latest_of(f.filter(at_store(key))) {
        Some(m) => m.price == price && m.is_on_sale == sale && m.timestamp == ts,
        None => false,
    }
}

/// The latest record of the product `key` among `g` has these values.
pub open spec fn product_latest_is(g: Seq<PriceRecord>, key: Seq<char>, price: i64, ts: i64) -> bool {
    match latest_of(g.filter(of_product_key(key))) {
        Some(m) => m.price == price && m.timestamp == ts,
        None => false,
    }
}

/// The prices users submitted, each under its own id.
pub struct PriceService {
    price_records: Vec<PriceRecord>,
}

impl PriceService {
    /// The records, in the order they were submitted.
    pub closed spec fn records(&self) -> Seq<PriceRecord> {
        self.price_records@
    }

    /// No two records share an id.
    pub open spec fn wf(&self) -> bool {
        keys_distinct(self.records())
    }

    /// No records.
    pub fn new() -> (r: Self)
        ensures
            r.wf(),
            r.records().len() == 0,
    {
        PriceService { price_records: Vec::new() }
    }

    fn check_price(price: i64) -> (r: Result<(), ServiceError>)
        ensures
            match price_outcome(price as int) {
                Ok(()) => r is Ok,
                Err(m) => r matches Err(e) && service_failure_of(e) == ServiceFailure::ValidationError(m),
            },
    {
        if price <= 0 {
            return Err(ServiceError::ValidationError(owned("Price must be positive")));
        }
        if price > MAX_PRICE {
            return Err(ServiceError::ValidationError(owned("Price too high")));
        }
        Ok(())
    }

    /// Record a pending price after checking it.
    pub fn submit_price(
        &mut self,
        product_id: String,
        store_id: String,
        user_id: Option<String>,
        price: i64,
        is_on_sale: bool,
        receipt_image: Option<String>,
    ) -> (r: Result<PriceRecord, ServiceError>)
        requires
            old(self).wf(),
        ensures
            final(self).wf(),
            price_outcome(price as int) matches Err(m) ==> (r matches Err(e) && service_failure_of(e)
                == ServiceFailure::ValidationError(m) && final(self).records() == old(self).records()),
            price_outcome(price as int) is Ok ==> (r matches Ok(p) && p.product_id == Some(product_id)
                && p.store_id == store_id && p.user_id == user_id && p.price == price && p.is_on_sale
                == is_on_sale && p.receipt_image == receipt_image && p.verification_status@ == "pending"@
                && p.id is Some && final(self).records() == put_record(old(self).records(), p)),
    {
        Self::check_price(price)?;
        let record = PriceRecord::new(Some(product_id), store_id, user_id, price, is_on_sale, receipt_image);
        put(&mut self.price_records, record.duplicate());
        Ok(record)
    }

    fn not_found(price_id: &str) -> (e: ServiceError)
        ensures
            service_failure_of(e) == record_not_found(price_id@),
    {
        let mut m = owned("Price record ");
        m.append(price_id);
        m.append(" not found");
        ServiceError::NotFound(m)
    }

    /// A copy of the record with this id.
    pub fn get_price_record(&self, price_id: &str) -> (r: Result<PriceRecord, ServiceError>)
        requires
            self.wf(),
        ensures
            match lookup_key(self.records(), price_id@) {
                Some(p) => r == Ok::<PriceRecord, ServiceError>(p),
                None => r matches Err(e) && service_failure_of(e) == record_not_found(price_id@),
            },
    {
        match find_key(&self.price_records, price_id) {
            Some(i) => {
                proof {
                    lemma_key_index(self.records(), i as int);
                }
                Ok(self.price_records[i].duplicate())
            },
            None => Err(Self::not_found(price_id)),
        }
    }

    /// Mark a record verified, or rejected.
    pub fn verify_price(&mut self, price_id: &str, verified: bool) -> (r: Result<PriceRecord, ServiceError>)
        requires
            old(self).wf(),
        ensures
            final(self).wf(),
            !has_key(old(self).records(), price_id@) ==> (r matches Err(e) && service_failure_of(e)
                == record_not_found(price_id@) && final(self).records() == old(self).records()),
            has_key(old(self).records(), price_id@) ==> ({
                let i = key_index(old(self).records(), price_id@);
                let o = old(self).records()[i];
                r matches Ok(p) && p.verification_status@ == (if verified {
                    "verified"@
                } else {
                    "rejected"@
                }) && p == (PriceRecord { verification_status: p.verification_status, ..o })
                    && final(self).records() == old(self).records().update(i, p)
            }),
    {
        let i = match find_key(&self.price_records, price_id) {
            Some(i) => i,
            None => {
                return Err(Self::not_found(price_id));
            },
        };
        let ghost before = self.price_records@;
        let mut p = self.price_records[i].duplicate();
        if verified {
            p.verify();
        } else {
            p.reject();
        }
        proof {
            lemma_update_same_key(before, i as int, p);
        }
        self.price_records.set(i, p.duplicate());
        Ok(p)
    }

    /// Put a record back under review.
    pub fn reset_price_record_status(&mut self, price_id: &str) -> (r: Result<PriceRecord, ServiceError>)
        requires
            old(self).wf(),
        ensures
            final(self).wf(),
            !has_key(old(self).records(), price_id@) ==> (r matches Err(e) && service_failure_of(e)
                == record_not_found(price_id@) && final(self).records() == old(self).records()),
            has_key(old(self).records(), price_id@) ==> ({
                let i = key_index(old(self).records(), price_id@);
                let o = old(self).records()[i];
                r matches Ok(p) && p.verification_status@ == "pending"@ && p == (PriceRecord {
                    verification_status: p.verification_status,
                    ..o
                }) && final(self).records() == old(self).records().update(i, p)
            }),
    {
        let i = match find_key(&self.price_records, price_id) {
            Some(i) => i,
            None => {
                return Err(Self::not_found(price_id));
            },
        };
        let ghost before = self.price_records@;
        let mut p = self.price_records[i].duplicate();
        p.reset_pending();
        proof {
            lemma_update_same_key(before, i as int, p);
        }
        self.price_records.set(i, p.duplicate());
        Ok(p)
    }

    fn selects_record(q: PriceQuery, key: &str, p: &PriceRecord) -> (b: bool)
        ensures
            b == selects(q, key@, *p),
    {
        match q {
            PriceQuery::Product => match &p.product_id {
                Some(x) => str_eq(x.as_str(), key),
                None => false,
            },
            PriceQuery::VerifiedProduct => match &p.product_id {
                Some(x) => str_eq(x.as_str(), key) && str_eq(p.verification_status.as_str(), "verified"),
                None => false,
            },
            PriceQuery::Store => str_eq(p.store_id.as_str(), key),
            PriceQuery::User => match &p.user_id {
                Some(x) => str_eq(x.as_str(), key),
                None => false,
            },
        }
    }

    /// Copies of the records a query selects, in submission order.
    fn select(&self, q: PriceQuery, key: &str) -> (r: Vec<PriceRecord>)
        ensures
            r@ == self.records().filter(query_pred(q, key@)),
    {
        let mut keep: Vec<bool> = Vec::new();
        let mut i: usize = 0;
        while i < self.price_records.len()
            invariant
                i <= self.price_records@.len(),
                keep@.len() == i,
                forall|j: int| 0 <= j < i ==> #[trigger] keep@[j] == selects(q, key@, self.price_records@[j]),
            decreases self.price_records.len() - i,
        {
            keep.push(Self::selects_record(q, key, &self.price_records[i]));
            i = i + 1;
        }
        proof {
            lemma_flagged_filter(self.price_records@, keep@, query_pred(q, key@));
        }
        let out = copy_flagged(&self.price_records, &keep);
        assert forall|j: int| 0 <= j < out@.len() implies out@[j] == flagged(self.price_records@, keep@)[j] by {
            assert(out@[j].same(&flagged(self.price_records@, keep@)[j]));
        }
        assert(out@ =~= self.records().filter(query_pred(q, key@)));
        out
    }

    /// Copies of the records of a product.
    pub fn get_product_prices(&self, product_id: &str) -> (r: Result<Vec<PriceRecord>, ServiceError>)
        ensures
            r matches Ok(v) && v@ == self.records().filter(query_pred(PriceQuery::Product, product_id@)),
    {
        Ok(self.select(PriceQuery::Product, product_id))
    }

    /// Copies of the verified records of a product.
    pub fn get_verified_product_prices(&self, product_id: &str) -> (r: Result<Vec<PriceRecord>, ServiceError>)
        ensures
            r matches Ok(v) && v@ == self.records().filter(query_pred(PriceQuery::VerifiedProduct, product_id@)),
    {
        Ok(self.select(PriceQuery::VerifiedProduct, product_id))
    }

    /// Copies of the records of a store.
    pub fn get_store_prices(&self, store_id: &str) -> (r: Result<Vec<PriceRecord>, ServiceError>)
        ensures
            r matches Ok(v) && v@ == self.records().filter(query_pred(PriceQuery::Store, store_id@)),
    {
        Ok(self.select(PriceQuery::Store, store_id))
    }

    /// Copies of the records a user submitted.
    pub fn get_user_prices(&self, user_id: &str) -> (r: Result<Vec<PriceRecord>, ServiceError>)
        ensures
            r matches Ok(v) && v@ == self.records().filter(query_pred(PriceQuery::User, user_id@)),
    {
        Ok(self.select(PriceQuery::User, user_id))
    }

    fn lowest(s: &Vec<PriceRecord>) -> (r: Option<usize>)
        ensures
            match r {
                None => lowest_of(s@) is None,
                Some(i) => i < s@.len() && lowest_of(s@) == Some(s@[i as int]),
            },
    {
        let mut best: Option<usize> = None;
        let mut i: usize = 0;
        while i < s.len()
            invariant
                i <= s@.len(),
                match best {
                    None => lowest_of(s@.subrange(0, i as int)) is None,
                    Some(b) => b < i && lowest_of(s@.subrange(0, i as int)) == Some(s@[b as int]),
                },
            decreases s.len() - i,
        {
            assert(s@.subrange(0, i + 1).drop_last() =~= s@.subrange(0, i as int));
            match best {
                None => {
                    best = Some(i);
                },
                Some(b) => {
                    if s[i].price < s[b].price {
                        best = Some(i);
                    }
                },
            }
            i = i + 1;
        }
        assert(s@.subrange(0, s@.len() as int) =~= s@);
        best
    }

    fn latest(s: &Vec<PriceRecord>) -> (r: Option<usize>)
        ensures
            match r {
                None => latest_of(s@) is None,
                Some(i) => i < s@.len() && latest_of(s@) == Some(s@[i as int]),
            },
    {
        let mut best: Option<usize> = None;
        let mut i: usize = 0;
        while i < s.len()
            invariant
                i <= s@.len(),
                match best {
                    None => latest_of(s@.subrange(0, i as int)) is None,
                    Some(b) => b < i && latest_of(s@.subrange(0, i as int)) == Some(s@[b as int]),
                },
            decreases s.len() - i,
        {
            assert(s@.subrange(0, i + 1).drop_last() =~= s@.subrange(0, i as int));
            match best {
                None => {
                    best = Some(i);
                },
                Some(b) => {
                    if s[i].timestamp > s[b].timestamp {
                        best = Some(i);
                    }
                },
            }
            i = i + 1;
        }
        assert(s@.subrange(0, s@.len() as int) =~= s@);
        best
    }

    /// The verified record of a product with the lowest price (the first
    /// such, in submission order).
    pub fn get_current_lowest_price(&self, product_id: &str) -> (r: Result<Option<PriceRecord>, ServiceError>)
        ensures
            r == Ok::<Option<PriceRecord>, ServiceError>(
                lowest_of(self.records().filter(query_pred(PriceQuery::VerifiedProduct, product_id@))),
            ),
            r matches Ok(Some(m)) ==> {
                &&& self.records().contains(m)
                &&& is_verified(m)
                &&& names_product(m, product_id@)
                &&& forall|i: int|
                    0 <= i < self.records().len() && is_verified(#[trigger] self.records()[i]) && names_product(
                        self.records()[i],
                        product_id@,
                    ) ==> m.price <= self.records()[i].price
            },
            r matches Ok(None) ==> forall|i: int|
                0 <= i < self.records().len() ==> !(is_verified(#[trigger] self.records()[i]) && names_product(
                    self.records()[i],
                    product_id@,
                )),
    {
        proof {
            law_current_lowest_price(self.records(), product_id@);
        }
        let v = self.select(PriceQuery::VerifiedProduct, product_id);
        match Self::lowest(&v) {
            Some(i) => Ok(Some(v[i].duplicate())),
            None => Ok(None),
        }
    }

    fn keep_where(s: &Vec<PriceRecord>, key: &str, by_store: bool) -> (r: Vec<PriceRecord>)
        ensures
            r@ == s@.filter(if by_store {
                at_store(key@)
            } else {
                of_product_key(key@)
            }),
    {
        let ghost pred = if by_store {
            at_store(key@)
        } else {
            of_product_key(key@)
        };
        let mut keep: Vec<bool> = Vec::new();
        let mut i: usize = 0;
        while i < s.len()
            invariant
                pred == (if by_store {
                    at_store(key@)
                } else {
                    of_product_key(key@)
                }),
                i <= s@.len(),
                keep@.len() == i,
                forall|j: int| 0 <= j < i ==> #[trigger] keep@[j] == pred(s@[j]),
            decreases s.len() - i,
        {
            let b = if by_store {
                str_eq(s[i].store_id.as_str(), key)
            } else {
                match &s[i].product_id {
                    Some(x) => str_eq(x.as_str(), key),
                    None => {
                        let e = "";
                        proof {
                            reveal_strlit("");
                        }
                        assert(e@ =~= Seq::<char>::empty());
                        str_eq(e, key)
                    },
                }
            };
            assert(b == pred(s@[i as int]));
            keep.push(b);
            i = i + 1;
        }
        proof {
            lemma_flagged_filter(s@, keep@, pred);
        }
        let out = copy_flagged(s, &keep);
        assert forall|j: int| 0 <= j < out@.len() implies out@[j] == flagged(s@, keep@)[j] by {
            assert(out@[j].same(&flagged(s@, keep@)[j]));
        }
        assert(out@ =~= s@.filter(pred));
        out
    }

    fn store_ids(s: &Vec<PriceRecord>) -> (r: Vec<String>)
        ensures
            views_of(r@) == store_keys(s@),
    {
        let mut out: Vec<String> = Vec::new();
        let mut i: usize = 0;
        while i < s.len()
            invariant
                i <= s@.len(),
                out@.len() == i,
                forall|j: int| 0 <= j < i ==> (#[trigger] out@[j])@ == s@[j].store_id@,
            decreases s.len() - i,
        {
            out.push(s[i].store_id.clone());
            i = i + 1;
        }
        assert(views_of(out@) =~= store_keys(s@));
        out
    }

    fn product_ids(s: &Vec<PriceRecord>) -> (r: Vec<String>)
        ensures
            views_of(r@) == product_keys(s@),
    {
        let mut out: Vec<String> = Vec::new();
        let mut i: usize = 0;
        while i < s.len()
            invariant
                i <= s@.len(),
                out@.len() == i,
                forall|j: int| 0 <= j < i ==> (#[trigger] out@[j])@ == product_key(s@[j]),
            decreases s.len() - i,
        {
            let k = match &s[i].product_id {
                Some(x) => x.clone(),
                None => String::new(),
            };
            out.push(k);
            i = i + 1;
        }
        assert(views_of(out@) =~= product_keys(s@));
        out
    }

    /// For each store with verified prices of a product, in the order the
    /// stores first appear, the latest of those prices (the first such).
    pub fn get_price_comparison(&self, product_id: &str) -> (r: Result<Vec<StorePriceComparison>, ServiceError>)
        ensures
            r matches Ok(v) && ({
                let f = self.records().filter(query_pred(PriceQuery::VerifiedProduct, product_id@));
                let d = first_appearances(store_keys(f));
                &&& v@.len() == d.len()
                &&& forall|k: int| 0 <= k < v@.len() ==> (#[trigger] v@[k]).store_id@ == d[k] && store_latest_is(
                    f,
                    d[k],
                    v@[k].price,
                    v@[k].is_on_sale,
                    v@[k].timestamp,
                )
            }),
    {
        let f = self.select(PriceQuery::VerifiedProduct, product_id);
        let keys = Self::store_ids(&f);
        let d = distinct_strings(&keys);
        let mut out: Vec<StorePriceComparison> = Vec::new();
        let mut k: usize = 0;
        while k < d.len()
            invariant
                f@ == self.records().filter(query_pred(PriceQuery::VerifiedProduct, product_id@)),
                views_of(d@) == first_appearances(store_keys(f@)),
                k <= d@.len(),
                out@.len() == k,
                forall|j: int| 0 <= j < k ==> (#[trigger] out@[j]).store_id@ == views_of(d@)[j] && store_latest_is(
                    f@,
                    views_of(d@)[j],
                    out@[j].price,
                    out@[j].is_on_sale,
                    out@[j].timestamp,
                ),
            decreases d.len() - k,
        {
            let g = Self::keep_where(&f, d[k].as_str(), true);
            proof {
                lemma_first_appearance_present(store_keys(f@), k as int);
            }
            let ghost dk = views_of(d@)[k as int];
            assert(d@[k as int]@ == dk);
            match Self::latest(&g) {
                Some(i) => {
                    out.push(
                        StorePriceComparison {
                            store_id: d[k].clone(),
                            price: g[i].price,
                            is_on_sale: g[i].is_on_sale,
                            timestamp: g[i].timestamp,
                        },
                    );
                    assert(store_latest_is(f@, dk, g@[i as int].price, g@[i as int].is_on_sale, g@[i as int].timestamp));
                },
                None => {
                    proof {
                        lemma_key_has_record(f@, dk);
                    }
                    assert(false);
                },
            }
            k = k + 1;
        }
        Ok(out)
    }
}

/// Records seen after `cutoff`.
pub open spec fn after(cutoff: int) -> spec_fn(PriceRecord) -> bool {
    |p: PriceRecord| p.timestamp > cutoff
}

/// Records on sale.
pub open spec fn on_sale() -> spec_fn(PriceRecord) -> bool {
    |p: PriceRecord| p.is_on_sale
}

/// Records that name a product.
pub open spec fn names_some_product() -> spec_fn(PriceRecord) -> bool {
    |p: PriceRecord| p.product_id is Some
}

/// Records with this review status.
pub open spec fn with_status(status: Seq<char>) -> spec_fn(PriceRecord) -> bool {
    |p: PriceRecord| p.verification_status@ == status
}

/// A history point by its values.
pub open spec fn point_view(p: PriceHistoryPoint) -> (i64, i64, Seq<char>, bool) {
    (p.price, p.timestamp, p.store_id@, p.is_on_sale)
}

/// The history point of a record.
pub open spec fn record_point(p: PriceRecord) -> (i64, i64, Seq<char>, bool) {
    (p.price, p.timestamp, p.store_id@, p.is_on_sale)
}

/// An alert by its values.
pub open spec fn alert_view(a: PriceAlert) -> (Seq<char>, i64, i64, Seq<char>, i64) {
    (a.product_id@, a.target_price, a.current_price, a.store_id@, a.timestamp)
}

/// A target by its values.
pub open spec fn target_view(t: (String, i64)) -> (Seq<char>, i64) {
    (t.0@, t.1)
}

/// The alerts of `alerts_for` by their values.
pub open spec fn alert_values(a: Seq<(Seq<char>, i64, PriceRecord)>) -> Seq<(Seq<char>, i64, i64, Seq<char>, i64)> {
    a.map_values(|x: (Seq<char>, i64, PriceRecord)| (x.0, x.1, x.2.price, x.2.store_id@, x.2.timestamp))
}

/// For each product in `d`, the number of records in `g` that name it.
pub open spec fn product_counts(g: Seq<PriceRecord>, d: Seq<Seq<char>>) -> Seq<i128> {
    d.map_values(|k: Seq<char>| g.filter(of_product_key(k)).len() as i128)
}

impl PriceService {
    /// The points of a product's verified records seen after `now` minus
    /// `days` days, in submission order.
    pub fn get_price_history_at(&self, product_id: &str, days: i64, now: i64) -> (r: Result<Vec<PriceHistoryPoint>, ServiceError>)
        ensures
            r matches Ok(v) && v@.map_values(|p: PriceHistoryPoint| point_view(p)) == self.records().filter(
                query_pred(PriceQuery::VerifiedProduct, product_id@),
            ).filter(after(now - days * 86400)).map_values(|p: PriceRecord| record_point(p)),
    {
        let cutoff: i128 = (now as i128) - (days as i128) * 86400;
        let f = self.select(PriceQuery::VerifiedProduct, product_id);
        let ghost pred = after(now - days * 86400);
        let mut out: Vec<PriceHistoryPoint> = Vec::new();
        let mut i: usize = 0;
        while i < f.len()
            invariant
                cutoff == now - days * 86400,
                pred == after(now - days * 86400),
                i <= f@.len(),
                out@.map_values(|p: PriceHistoryPoint| point_view(p)) == f@.subrange(0, i as int).filter(pred).map_values(
                    |p: PriceRecord| record_point(p),
                ),
            decreases f.len() - i,
        {
            proof {
                reveal(Seq::filter);
            }
            assert(f@.subrange(0, i + 1).drop_last() =~= f@.subrange(0, i as int));
            assert(f@.subrange(0, i + 1).last() == f@[i as int]);
            let ghost before = out@;
            if (f[i].timestamp as i128) > cutoff {
                out.push(
                    PriceHistoryPoint {
                        price: f[i].price,
                        timestamp: f[i].timestamp,
                        store_id: f[i].store_id.clone(),
                        is_on_sale: f[i].is_on_sale,
                    },
                );
                assert(out@.map_values(|p: PriceHistoryPoint| point_view(p)) =~= before.map_values(
                    |p: PriceHistoryPoint| point_view(p),
                ).push(record_point(f@[i as int])));
                assert(f@.subrange(0, i + 1).filter(pred).map_values(|p: PriceRecord| record_point(p))
                    =~= f@.subrange(0, i as int).filter(pred).map_values(|p: PriceRecord| record_point(p)).push(
                    record_point(f@[i as int]),
                ));
            }
            i = i + 1;
        }
        assert(f@.subrange(0, f@.len() as int) =~= f@);
        Ok(out)
    }

    /// The points of a product's verified records from the last `days` days.
    pub fn get_price_history(&self, product_id: &str, days: i64) -> (r: Result<Vec<PriceHistoryPoint>, ServiceError>)
        requires
            -106751991167 <= days <= 106751991167,
        ensures
            exists|now: i64|
                r matches Ok(v) && v@.map_values(|p: PriceHistoryPoint| point_view(p)) == self.records().filter(
                    query_pred(PriceQuery::VerifiedProduct, product_id@),
                ).filter(#[trigger] after(now - days * 86400)).map_values(|p: PriceRecord| record_point(p)),
    {
        let now = now_unix_seconds();
        self.get_price_history_at(product_id, days, now)
    }

    fn price_list(s: &Vec<PriceRecord>) -> (r: Vec<i64>)
        ensures
            r@ == prices_of(s@),
    {
        let mut out: Vec<i64> = Vec::new();
        let mut i: usize = 0;
        while i < s.len()
            invariant
                i <= s@.len(),
                out@ == prices_of(s@.subrange(0, i as int)),
            decreases s.len() - i,
        {
            out.push(s[i].price);
            assert(out@ =~= prices_of(s@.subrange(0, i + 1)));
            i = i + 1;
        }
        assert(s@.subrange(0, s@.len() as int) =~= s@);
        out
    }

    fn count_where(s: &Vec<PriceRecord>, which: u8, status: &str) -> (c: usize)
        ensures
            c == s@.filter(if which == 0 {
                on_sale()
            } else {
                with_status(status@)
            }).len(),
    {
        let ghost pred = if which == 0 {
            on_sale()
        } else {
            with_status(status@)
        };
        let mut c: usize = 0;
        let mut j: usize = 0;
        while j < s.len()
            invariant
                pred == (if which == 0 {
                    on_sale()
                } else {
                    with_status(status@)
                }),
                j <= s@.len(),
                c == s@.subrange(0, j as int).filter(pred).len(),
                c <= j,
            decreases s.len() - j,
        {
            proof {
                reveal(Seq::filter);
            }
            assert(s@.subrange(0, j + 1).drop_last() =~= s@.subrange(0, j as int));
            assert(s@.subrange(0, j + 1).last() == s@[j as int]);
            let hit = if which == 0 {
                s[j].is_on_sale
            } else {
                str_eq(s[j].verification_status.as_str(), status)
            };
            if hit {
                c = c + 1;
            }
            j = j + 1;
        }
        assert(s@.subrange(0, s@.len() as int) =~= s@);
        c
    }

    /// Figures over a product's verified prices; all zero when it has none.
    pub fn get_price_statistics(&self, product_id: &str) -> (r: Result<PriceStatistics, ServiceError>)
        ensures
            r matches Ok(st) && ({
                let v = self.records().filter(query_pred(PriceQuery::VerifiedProduct, product_id@));
                let sorted = prices_of(v).sort_by(price_leq());
                if v.len() == 0 {
                    st.min_price == 0 && st.max_price == 0 && st.price_sum == 0 && st.median_low == 0
                        && st.median_high == 0 && st.total_records == 0 && st.stores_count == 0
                        && st.sale_count == 0
                } else {
                    &&& st.min_price == sorted[0]
                    &&& st.max_price == sorted[v.len() - 1]
                    &&& st.median_low == sorted[(v.len() - 1) / 2]
                    &&& st.median_high == sorted[v.len() as int / 2]
                    &&& st.price_sum == price_total(v)
                    &&& st.total_records == v.len()
                    &&& st.stores_count == first_appearances(store_keys(v)).len()
                    &&& st.sale_count == v.filter(on_sale()).len()
                }
            }),
    {
        let v = self.select(PriceQuery::VerifiedProduct, product_id);
        if v.len() == 0 {
            return Ok(
                PriceStatistics {
                    min_price: 0,
                    max_price: 0,
                    price_sum: 0,
                    median_low: 0,
                    median_high: 0,
                    total_records: 0,
                    stores_count: 0,
                    sale_count: 0,
                },
            );
        }
        let prices = Self::price_list(&v);
        let sorted = sorted_prices(&prices);
        let n = v.len();
        let mut sum: i128 = 0;
        let mut i: usize = 0;
        while i < n
            invariant
                n == v@.len(),
                i <= n,
                sum == price_total(v@.subrange(0, i as int)),
                -0x8000_0000_0000_0000 * i <= sum <= 0x8000_0000_0000_0000 * i,
            decreases n - i,
        {
            assert(v@.subrange(0, i + 1).drop_last() =~= v@.subrange(0, i as int));
            sum = sum + v[i].price as i128;
            i = i + 1;
        }
        assert(v@.subrange(0, n as int) =~= v@);
        let stores = distinct_strings(&Self::store_ids(&v));
        let sales = Self::count_where(&v, 0, "");
        Ok(
            PriceStatistics {
                min_price: sorted[0],
                max_price: sorted[n - 1],
                price_sum: sum,
                median_low: sorted[(n - 1) / 2],
                median_high: sorted[n / 2],
                total_records: n,
                stores_count: stores.len(),
                sale_count: sales,
            },
        )
    }
}

impl PriceService {
    /// Up to `limit` products with the most verified records seen after
    /// `cutoff`, most first (products in the order they first appear among
    /// those records when counts are equal), each with its latest price.
    pub fn get_trending_prices_since(&self, limit: usize, cutoff: i64) -> (r: Result<Vec<TrendingPrice>, ServiceError>)
        ensures
            r matches Ok(v) && ({
                let g = self.records().filter(recent_verified(cutoff as int));
                let d = first_appearances(product_keys(g));
                exists|order: Seq<usize>|
                    #[trigger] ranked_top(product_counts(g, d), limit as int, order) && v@.len() == order.len()
                        && forall|k: int|
                        0 <= k < v@.len() ==> (#[trigger] v@[k]).product_id@ == d[order[k] as int]
                            && v@[k].activity_count == product_counts(g, d)[order[k] as int] && product_latest_is(
                            g,
                            d[order[k] as int],
                            v@[k].latest_price,
                            v@[k].timestamp,
                        )
            }),
    {
        let ghost pred = recent_verified(cutoff as int);
        let mut keep: Vec<bool> = Vec::new();
        let mut i: usize = 0;
        while i < self.price_records.len()
            invariant
                pred == recent_verified(cutoff as int),
                i <= self.price_records@.len(),
                keep@.len() == i,
                forall|j: int| 0 <= j < i ==> #[trigger] keep@[j] == pred(self.price_records@[j]),
            decreases self.price_records.len() - i,
        {
            let p = &self.price_records[i];
            keep.push(p.product_id.is_some() && p.timestamp > cutoff && str_eq(p.verification_status.as_str(), "verified"));
            i = i + 1;
        }
        proof {
            lemma_flagged_filter(self.price_records@, keep@, pred);
        }
        let g = copy_flagged(&self.price_records, &keep);
        assert forall|j: int| 0 <= j < g@.len() implies g@[j] == flagged(self.price_records@, keep@)[j] by {
            assert(g@[j].same(&flagged(self.price_records@, keep@)[j]));
        }
        assert(g@ =~= self.records().filter(pred));
        let d = distinct_strings(&Self::product_ids(&g));
        let ghost dv = views_of(d@);
        let mut counts: Vec<i128> = Vec::new();
        let mut lens: Vec<usize> = Vec::new();
        let mut latest_price: Vec<i64> = Vec::new();
        let mut latest_time: Vec<i64> = Vec::new();
        let mut k: usize = 0;
        while k < d.len()
            invariant
                g@ == self.records().filter(pred),
                dv == views_of(d@),
                dv == first_appearances(product_keys(g@)),
                k <= d@.len(),
                counts@.len() == k,
                lens@.len() == k,
                forall|j: int| 0 <= j < k ==> #[trigger] lens@[j] as int == counts@[j] as int,
                latest_price@.len() == k,
                latest_time@.len() == k,
                forall|j: int| 0 <= j < k ==> #[trigger] counts@[j] == product_counts(g@, dv)[j],
                forall|j: int| 0 <= j < k ==> product_latest_is(g@, dv[j], #[trigger] latest_price@[j], latest_time@[j]),
            decreases d.len() - k,
        {
            assert(d@[k as int]@ == dv[k as int]);
            let h = Self::keep_where(&g, d[k].as_str(), false);
            proof {
                lemma_first_appearance_present(product_keys(g@), k as int);
                lemma_product_key_has_record(g@, dv[k as int]);
                g@.lemma_filter_len(of_product_key(dv[k as int]));
            }
            counts.push(h.len() as i128);
            lens.push(h.len());
            match Self::latest(&h) {
                Some(i) => {
                    latest_price.push(h[i].price);
                    latest_time.push(h[i].timestamp);
                    assert(product_latest_is(g@, dv[k as int], h@[i as int].price, h@[i as int].timestamp));
                },
                None => {
                    assert(false);
                },
            }
            k = k + 1;
        }
        assert(counts@ =~= product_counts(g@, dv));
        let order = rank_by_count(&counts, limit);
        let mut out: Vec<TrendingPrice> = Vec::new();
        let mut m: usize = 0;
        while m < order.len()
            invariant
                ranked_top(counts@, limit as int, order@),
                counts@ == product_counts(g@, dv),
                dv == views_of(d@),
                counts@.len() == d@.len(),
                lens@.len() == d@.len(),
                forall|j: int| 0 <= j < d@.len() ==> #[trigger] lens@[j] as int == counts@[j] as int,
                latest_price@.len() == d@.len(),
                latest_time@.len() == d@.len(),
                forall|j: int| 0 <= j < d@.len() ==> product_latest_is(g@, dv[j], #[trigger] latest_price@[j], latest_time@[j]),
                m <= order@.len(),
                out@.len() == m,
                forall|k: int|
                    0 <= k < m ==> (#[trigger] out@[k]).product_id@ == dv[order@[k] as int]
                        && out@[k].activity_count == counts@[order@[k] as int] && product_latest_is(
                        g@,
                        dv[order@[k] as int],
                        out@[k].latest_price,
                        out@[k].timestamp,
                    ),
            decreases order.len() - m,
        {
            let x = order[m];
            assert(order@[m as int] < counts@.len());
            assert(d@[x as int]@ == dv[x as int]);
            assert(product_latest_is(g@, dv[x as int], latest_price@[x as int], latest_time@[x as int]));
            assert(lens@[x as int] as int == counts@[x as int] as int);
            out.push(
                TrendingPrice {
                    product_id: d[x].clone(),
                    latest_price: latest_price[x],
                    activity_count: lens[x],
                    timestamp: latest_time[x],
                },
            );
            m = m + 1;
        }
        assert(ranked_top(product_counts(g@, dv), limit as int, order@));
        Ok(out)
    }

    /// Up to `limit` products with the most verified records from the last
    /// day; see `get_trending_prices_since`.
    pub fn get_trending_prices(&self, limit: usize) -> (r: Result<Vec<TrendingPrice>, ServiceError>)
        ensures
            exists|cutoff: i64|
                r matches Ok(v) && ({
                    let g = self.records().filter(#[trigger] recent_verified(cutoff as int));
                    let d = first_appearances(product_keys(g));
                    exists|order: Seq<usize>|
                        #[trigger] ranked_top(product_counts(g, d), limit as int, order) && v@.len() == order.len()
                            && forall|k: int|
                            0 <= k < v@.len() ==> (#[trigger] v@[k]).product_id@ == d[order[k] as int]
                                && v@[k].activity_count == product_counts(g, d)[order[k] as int] && product_latest_is(
                                g,
                                d[order[k] as int],
                                v@[k].latest_price,
                                v@[k].timestamp,
                            )
                }),
    {
        let now = now_unix_seconds();
        let cutoff: i64 = if now >= i64::MIN + 86400 {
            now - 86400
        } else {
            i64::MIN
        };
        self.get_trending_prices_since(limit, cutoff)
    }

    /// For each target, in order, an alert when the product's lowest
    /// verified price is at or below the target.
    pub fn check_price_alerts(&self, target_prices: &[(String, i64)]) -> (r: Result<Vec<PriceAlert>, ServiceError>)
        ensures
            r matches Ok(v) && v@.map_values(|a: PriceAlert| alert_view(a)) == alert_values(
                alerts_for(self.records(), target_prices@.map_values(|t: (String, i64)| target_view(t))),
            ),
    {
        let ghost tv = target_prices@.map_values(|t: (String, i64)| target_view(t));
        let mut out: Vec<PriceAlert> = Vec::new();
        let mut i: usize = 0;
        while i < target_prices.len()
            invariant
                tv == target_prices@.map_values(|t: (String, i64)| target_view(t)),
                i <= target_prices@.len(),
                out@.map_values(|a: PriceAlert| alert_view(a)) == alert_values(
                    alerts_for(self.records(), tv.subrange(0, i as int)),
                ),
            decreases target_prices.len() - i,
        {
            assert(tv.subrange(0, i + 1).drop_last() =~= tv.subrange(0, i as int));
            assert(tv.subrange(0, i + 1).last() == target_view(target_prices@[i as int]));
            let (pid, target) = (&target_prices[i].0, target_prices[i].1);
            let ghost before = out@;
            match self.get_current_lowest_price(pid.as_str()) {
                Ok(Some(m)) => {
                    if m.price <= target {
                        out.push(
                            PriceAlert {
                                product_id: pid.clone(),
                                target_price: target,
                                current_price: m.price,
                                store_id: m.store_id.clone(),
                                timestamp: m.timestamp,
                            },
                        );
                        assert(out@.map_values(|a: PriceAlert| alert_view(a)) =~= before.map_values(
                            |a: PriceAlert| alert_view(a),
                        ).push((pid@, target, m.price, m.store_id@, m.timestamp)));
                        assert(alert_values(alerts_for(self.records(), tv.subrange(0, i + 1))) =~= alert_values(
                            alerts_for(self.records(), tv.subrange(0, i as int)),
                        ).push((pid@, target, m.price, m.store_id@, m.timestamp)));
                    }
                },
                _ => {},
            }
            i = i + 1;
        }
        assert(tv.subrange(0, tv.len() as int) =~= tv);
        Ok(out)
    }

    /// Counts of records by status, and of distinct products and stores.
    pub fn get_submission_stats(&self) -> (r: Result<SubmissionStats, ServiceError>)
        ensures
            r matches Ok(st) && st.total_submissions == self.records().len() && st.verified_count
                == self.records().filter(with_status("verified"@)).len() && st.pending_count
                == self.records().filter(with_status("pending"@)).len() && st.rejected_count
                == self.records().filter(with_status("rejected"@)).len() && st.unique_products
                == first_appearances(product_keys(self.records().filter(names_some_product()))).len()
                && st.unique_stores == first_appearances(store_keys(self.records())).len(),
    {
        let verified = Self::count_where(&self.price_records, 1, "verified");
        let pending = Self::count_where(&self.price_records, 1, "pending");
        let rejected = Self::count_where(&self.price_records, 1, "rejected");
        let ghost pred = names_some_product();
        let mut keep: Vec<bool> = Vec::new();
        let mut i: usize = 0;
        while i < self.price_records.len()
            invariant
                pred == names_some_product(),
                i <= self.price_records@.len(),
                keep@.len() == i,
                forall|j: int| 0 <= j < i ==> #[trigger] keep@[j] == pred(self.price_records@[j]),
            decreases self.price_records.len() - i,
        {
            keep.push(self.price_records[i].product_id.is_some());
            i = i + 1;
        }
        proof {
            lemma_flagged_filter(self.price_records@, keep@, pred);
        }
        let named = copy_flagged(&self.price_records, &keep);
        assert forall|j: int| 0 <= j < named@.len() implies named@[j] == flagged(self.price_records@, keep@)[j] by {
            assert(named@[j].same(&flagged(self.price_records@, keep@)[j]));
        }
        assert(named@ =~= self.records().filter(pred));
        let products = distinct_strings(&Self::product_ids(&named));
        let stores = distinct_strings(&Self::store_ids(&self.price_records));
        Ok(
            SubmissionStats {
                total_submissions: self.price_records.len(),
                verified_count: verified,
                pending_count: pending,
                rejected_count: rejected,
                unique_products: products.len(),
                unique_stores: stores.len(),
            },
        )
    }
}

/// A product id that occurs among the records selects a record.
pub proof fn lemma_product_key_has_record(f: Seq<PriceRecord>, key: Seq<char>)
    requires
        product_keys(f).contains(key),
    ensures
        latest_of(f.filter(of_product_key(key))) is Some,
        f.filter(of_product_key(key)).len() > 0,
{
    broadcast use vstd::seq_lib::group_filter_ensures;
    let j = choose|j: int| 0 <= j < product_keys(f).len() && product_keys(f)[j] == key;
    assert(f.filter(of_product_key(key)).contains(f[j]));
    lemma_latest_nonempty(f.filter(of_product_key(key)));
}

/// Every key in the first appearances occurs among the keys.
pub proof fn lemma_first_appearance_present(keys: Seq<Seq<char>>, k: int)
    requires
        0 <= k < first_appearances(keys).len(),
    ensures
        keys.contains(first_appearances(keys)[k]),
    decreases keys.len(),
{
    if keys.len() > 0 {
        let t = first_appearances(keys.drop_last());
        if k < t.len() {
            lemma_first_appearance_present(keys.drop_last(), k);
            let j = choose|j: int| 0 <= j < keys.drop_last().len() && keys.drop_last()[j] == t[k];
            assert(keys[j] == t[k]);
        } else {
            assert(keys[keys.len() - 1] == keys.last());
        }
    }
}

/// A store id that occurs among the records selects a record, so the latest
/// of those records exists.
pub proof fn lemma_key_has_record(f: Seq<PriceRecord>, key: Seq<char>)
    requires
        store_keys(f).contains(key),
    ensures
        latest_of(f.filter(at_store(key))) is Some,
{
    let j = choose|j: int| 0 <= j < store_keys(f).len() && store_keys(f)[j] == key;
    broadcast use vstd::seq_lib::group_filter_ensures;
    assert(f.filter(at_store(key)).contains(f[j]));
    lemma_latest_nonempty(f.filter(at_store(key)));
}

/// The lowest record of a list is one of its records and no record of the
/// list is cheaper; of equally cheap records it is the first. Only an empty
/// list has none.
pub proof fn law_lowest_is_cheapest(s: Seq<PriceRecord>)
    ensures
        lowest_of(s) is None <==> s.len() == 0,
        lowest_of(s) matches Some(r) ==> exists|k: int|
            0 <= k < s.len() && s[k] == r && (forall|i: int| 0 <= i < s.len() ==> r.price <= #[trigger] s[i].price)
                && (forall|i: int| 0 <= i < k ==> r.price < #[trigger] s[i].price),
    decreases s.len(),
{
    if s.len() > 0 {
        let d = s.drop_last();
        law_lowest_is_cheapest(d);
        assert forall|i: int| 0 <= i < d.len() implies d[i] == s[i] by {}
        assert(s[s.len() - 1] == s.last());
        match lowest_of(d) {
            None => {
                assert(s.len() == 1);
                assert(s[0] == s.last());
            },
            Some(m) => {
                let k = choose|k: int|
                    0 <= k < d.len() && d[k] == m && (forall|i: int| 0 <= i < d.len() ==> m.price <= #[trigger] d[i].price)
                        && (forall|i: int| 0 <= i < k ==> m.price < #[trigger] d[i].price);
                assert(s[k] == m);
                if s.last().price < m.price {
                    assert forall|i: int| 0 <= i < s.len() - 1 implies s.last().price < #[trigger] s[i].price by {
                        assert(d[i] == s[i]);
                    }
                } else {
                    assert forall|i: int| 0 <= i < k implies m.price < #[trigger] s[i].price by {
                        assert(d[i] == s[i]);
                    }
                    assert forall|i: int| 0 <= i < s.len() implies m.price <= #[trigger] s[i].price by {
                        if i < s.len() - 1 {
                            assert(d[i] == s[i]);
                        }
                    }
                }
            },
        }
    }
}

/// The current lowest price of a product is a verified record of that
/// product, and no verified record of the product is cheaper; there is none
/// exactly when the product has no verified record.
pub proof fn law_current_lowest_price(records: Seq<PriceRecord>, product_id: Seq<char>)
    ensures
        lowest_of(records.filter(query_pred(PriceQuery::VerifiedProduct, product_id))) matches Some(r) ==> {
            &&& records.contains(r)
            &&& is_verified(r)
            &&& names_product(r, product_id)
            &&& forall|i: int|
                0 <= i < records.len() && is_verified(#[trigger] records[i]) && names_product(records[i], product_id)
                    ==> r.price <= records[i].price
        },
        lowest_of(records.filter(query_pred(PriceQuery::VerifiedProduct, product_id))) is None ==> forall|i: int|
            0 <= i < records.len() ==> !(is_verified(#[trigger] records[i]) && names_product(records[i], product_id)),
{
    broadcast use vstd::seq_lib::group_filter_ensures;
    let pred = query_pred(PriceQuery::VerifiedProduct, product_id);
    let f = records.filter(pred);
    law_lowest_is_cheapest(f);
    assert forall|i: int| 0 <= i < records.len() && is_verified(#[trigger] records[i]) && names_product(records[i], product_id)
        implies f.contains(records[i]) by {
        assert(pred(records[i]));
    }
    match lowest_of(f) {
        Some(r) => {
            let k = choose|k: int|
                0 <= k < f.len() && f[k] == r && (forall|i: int| 0 <= i < f.len() ==> r.price <= #[trigger] f[i].price)
                    && (forall|i: int| 0 <= i < k ==> r.price < #[trigger] f[i].price);
            assert(f.contains(r));
            assert(pred(f[k]));
            assert(selects(PriceQuery::VerifiedProduct, product_id, r));
            records.lemma_filter_contains_rev(pred, r);
            assert forall|i: int|
                0 <= i < records.len() && is_verified(#[trigger] records[i]) && names_product(records[i], product_id)
                    implies r.price <= records[i].price by {
                assert(f.contains(records[i]));
                let j = choose|j: int| 0 <= j < f.len() && f[j] == records[i];
                assert(r.price <= f[j].price);
            }
        },
        None => {
            assert forall|i: int| 0 <= i < records.len() implies !(is_verified(#[trigger] records[i]) && names_product(records[i], product_id)) by {
                if is_verified(records[i]) && names_product(records[i], product_id) {
                    assert(f.contains(records[i]));
                }
            }
        },
    }
}

/// A non-empty list has a latest record and a lowest one.
pub proof fn lemma_latest_nonempty(s: Seq<PriceRecord>)
    requires
        s.len() > 0,
    ensures
        latest_of(s) is Some,
        lowest_of(s) is Some,
{
}

impl Default for PriceService {
    fn default() -> (r: Self)
        ensures
            r.wf(),
            r.records().len() == 0,
    {
        Self::new()
    }
}

} // verus!
