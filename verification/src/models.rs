//! Domain records: users, reviews, alerts, products with their price
//! records, receipt items and stores.
//!
//! Times are Unix seconds. Prices are integers in minor units (cents, or
//! yen). Coordinates are millionths of a degree and store ratings hundredths
//! of a star.
use vstd::prelude::*;
use crate::error::now_unix_seconds;
use crate::table::Record;
use crate::text::{owned, str_eq};
use crate::utils::crypto::{new_uuid_string, uuid_text};

verus! {

/// An account. Times are Unix seconds.
#[derive(Debug, Clone)]
pub struct User {
    pub id: String,
    pub username: String,
    pub email: String,
    pub password_hash: String,
    pub created_at: i64,
    pub last_login: Option<i64>,
    pub reputation_score: i32,
}

impl User {
    /// A new account with a fresh random id, created now, never logged in,
    /// with a reputation of zero.
    pub fn new(username: String, email: String, password_hash: String) -> (r: Self)
        ensures
            uuid_text(r.id@),
            r.username == username,
            r.email == email,
            r.password_hash == password_hash,
            r.last_login is None,
            r.reputation_score == 0,
    {
        User {
            id: new_uuid_string(),
            username,
            email,
            password_hash,
            created_at: now_unix_seconds(),
            last_login: None,
            reputation_score: 0,
        }
    }

    /// Record a login at the current time.
    pub fn update_last_login(&mut self)
        ensures
            final(self).last_login is Some,
            final(self).id == old(self).id,
            final(self).username == old(self).username,
            final(self).email == old(self).email,
            final(self).password_hash == old(self).password_hash,
            final(self).created_at == old(self).created_at,
            final(self).reputation_score == old(self).reputation_score,
    {
        self.last_login = Some(now_unix_seconds());
    }

    /// A copy of this account.
    pub fn duplicate(&self) -> (r: Self)
        ensures
            r == *self,
    {
        User {
            id: self.id.clone(),
            username: self.username.clone(),
            email: self.email.clone(),
            password_hash: self.password_hash.clone(),
            created_at: self.created_at,
            last_login: self.last_login,
            reputation_score: self.reputation_score,
        }
    }
}


/// The calendar day (UTC) of a time: days since 1970-01-01, rounded down.
pub open spec fn day_of(t: int) -> int {
    t / 86400
}

/// The day (UTC) of a time.
pub fn day_index(t: i64) -> (d: i64)
    ensures
        d == day_of(t as int),
{
    if t >= 0 {
        t / 86400
    } else {
        let u: i64 = -(t + 1);
        let q: i64 = u / 86400;
        proof {
            let r = u % 86400;
            assert(u == 86400 * q + r && 0 <= r < 86400);
            assert(t == 86400 * (-q - 1) + (86400 - r - 1));
            vstd::arithmetic::div_mod::lemma_fundamental_div_mod_converse(t as int, 86400, -q - 1, 86400 - r - 1);
        }
        -q - 1
    }
}

/// A rating of a store or of a product.
#[derive(Debug, Clone)]
pub struct UserReview {
    pub id: String,
    pub user_id: String,
    pub store_id: Option<String>,
    pub product_id: Option<String>,
    pub rating: i32,
    pub comment: String,
    pub created_at: i64,
}

impl UserReview {
    /// A review with a fresh random id, created now.
    pub fn new(user_id: String, store_id: Option<String>, product_id: Option<String>, rating: i32, comment: String) -> (r: Self)
        ensures
            uuid_text(r.id@),
            r.user_id == user_id,
            r.store_id == store_id,
            r.product_id == product_id,
            r.rating == rating,
            r.comment == comment,
    {
        UserReview {
            id: new_uuid_string(),
            user_id,
            store_id,
            product_id,
            rating,
            comment,
            created_at: now_unix_seconds(),
        }
    }
}

impl Record for UserReview {
    open spec fn key(&self) -> Seq<char> {
        self.id@
    }

    open spec fn same(&self, other: &Self) -> bool {
        *self == *other
    }

    fn key_str(&self) -> (r: &str) {
        self.id.as_str()
    }

    fn duplicate(&self) -> (r: Self) {
        UserReview {
            id: self.id.clone(),
            user_id: self.user_id.clone(),
            store_id: self.store_id.clone(),
            product_id: self.product_id.clone(),
            rating: self.rating,
            comment: self.comment.clone(),
            created_at: self.created_at,
        }
    }
}

/// A user's wish to hear when a product's price falls to a target.
#[derive(Debug, Clone)]
pub struct PriceAlert {
    pub id: String,
    pub user_id: String,
    pub product_id: String,
    pub target_price: i64,
    pub is_active: bool,
    pub created_at: i64,
}

impl PriceAlert {
    /// An active alert with a fresh random id, created now.
    pub fn new(user_id: String, product_id: String, target_price: i64) -> (r: Self)
        ensures
            uuid_text(r.id@),
            r.user_id == user_id,
            r.product_id == product_id,
            r.target_price == target_price,
            r.is_active,
    {
        PriceAlert {
            id: new_uuid_string(),
            user_id,
            product_id,
            target_price,
            is_active: true,
            created_at: now_unix_seconds(),
        }
    }

    /// Switch the alert off.
    pub fn deactivate(&mut self)
        ensures
            *final(self) == (PriceAlert { is_active: false, ..*old(self) }),
    {
        self.is_active = false;
    }

    /// The alert is on and the price is at or below its target.
    pub fn should_trigger(&self, current_price: i64) -> (b: bool)
        ensures
            b == (self.is_active && current_price <= self.target_price),
    {
        self.is_active && current_price <= self.target_price
    }
}

impl Record for PriceAlert {
    open spec fn key(&self) -> Seq<char> {
        self.id@
    }

    open spec fn same(&self, other: &Self) -> bool {
        *self == *other
    }

    fn key_str(&self) -> (r: &str) {
        self.id.as_str()
    }

    fn duplicate(&self) -> (r: Self) {
        PriceAlert {
            id: self.id.clone(),
            user_id: self.user_id.clone(),
            product_id: self.product_id.clone(),
            target_price: self.target_price,
            is_active: self.is_active,
            created_at: self.created_at,
        }
    }
}

/// A line of a receipt.
#[derive(Debug, Clone)]
pub struct ReceiptItem {
    pub name: String,
    pub price: i64,
    pub quantity: i32,
    pub category: Option<String>,
}

impl ReceiptItem {
    /// A receipt line from its parts.
    pub fn new(name: String, price: i64, quantity: i32, category: Option<String>) -> (r: Self)
        ensures
            r == (ReceiptItem { name, price, quantity, category }),
    {
        ReceiptItem { name, price, quantity, category }
    }

    /// Unit price times quantity.
    pub fn total_price(&self) -> (t: i128)
        ensures
            t == self.price * self.quantity,
    {
        proof {
            vstd::arithmetic::mul::lemma_mul_upper_bound(
                if self.price >= 0 { self.price as int } else { -self.price },
                0x8000_0000_0000_0000,
                if self.quantity >= 0 { self.quantity as int } else { -self.quantity },
                0x8000_0000,
            );
            assert(-0x8000_0000_0000_0000 * 0x8000_0000 <= self.price * self.quantity <= 0x8000_0000_0000_0000 * 0x8000_0000) by (nonlinear_arith)
                requires
                    -0x8000_0000_0000_0000 <= self.price < 0x8000_0000_0000_0000,
                    -0x8000_0000 <= self.quantity < 0x8000_0000,
            ;
        }
        (self.price as i128) * (self.quantity as i128)
    }

    /// A copy of the line.
    pub fn duplicate(&self) -> (r: Self)
        ensures
            r == *self,
    {
        ReceiptItem {
            name: self.name.clone(),
            price: self.price,
            quantity: self.quantity,
            category: self.category.clone(),
        }
    }
}

/// A price seen for a product at a store.
#[derive(Debug, Clone)]
pub struct PriceRecord {
    pub id: Option<String>,
    pub product_id: Option<String>,
    pub store_id: String,
    pub user_id: Option<String>,
    pub price: i64,
    pub timestamp: i64,
    pub is_on_sale: bool,
    pub receipt_image: Option<String>,
    pub verification_status: String,
}

/// The record's review status is `verified`.
pub open spec fn is_verified(p: PriceRecord) -> bool {
    p.verification_status@ == "verified"@
}

impl PriceRecord {
    /// A pending record with a fresh random id, seen now.
    pub fn new(
        product_id: Option<String>,
        store_id: String,
        user_id: Option<String>,
        price: i64,
        is_on_sale: bool,
        receipt_image: Option<String>,
    ) -> (r: Self)
        ensures
            r.id matches Some(i) && uuid_text(i@),
            r.product_id == product_id,
            r.store_id == store_id,
            r.user_id == user_id,
            r.price == price,
            r.is_on_sale == is_on_sale,
            r.receipt_image == receipt_image,
            r.verification_status@ == "pending"@,
    {
        PriceRecord {
            id: Some(new_uuid_string()),
            product_id,
            store_id,
            user_id,
            price,
            timestamp: now_unix_seconds(),
            is_on_sale,
            receipt_image,
            verification_status: owned("pending"),
        }
    }

    /// Mark the record verified.
    pub fn verify(&mut self)
        ensures
            final(self).verification_status@ == "verified"@,
            *final(self) == (PriceRecord { verification_status: final(self).verification_status, ..*old(self) }),
    {
        self.verification_status = owned("verified");
    }

    /// A copy of the record.
    pub fn copy(&self) -> (r: Self)
        ensures
            r == *self,
    {
        PriceRecord {
            id: self.id.clone(),
            product_id: self.product_id.clone(),
            store_id: self.store_id.clone(),
            user_id: self.user_id.clone(),
            price: self.price,
            timestamp: self.timestamp,
            is_on_sale: self.is_on_sale,
            receipt_image: self.receipt_image.clone(),
            verification_status: self.verification_status.clone(),
        }
    }

    /// Put the record back under review.
    pub fn reset_pending(&mut self)
        ensures
            final(self).verification_status@ == "pending"@,
            *final(self) == (PriceRecord { verification_status: final(self).verification_status, ..*old(self) }),
    {
        self.verification_status = owned("pending");
    }

    /// Mark the record rejected.
    pub fn reject(&mut self)
        ensures
            final(self).verification_status@ == "rejected"@,
            *final(self) == (PriceRecord { verification_status: final(self).verification_status, ..*old(self) }),
    {
        self.verification_status = owned("rejected");
    }
}

impl Record for PriceRecord {
    open spec fn key(&self) -> Seq<char> {
        match self.id {
            Some(i) => i@,
            None => Seq::empty(),
        }
    }

    open spec fn same(&self, other: &Self) -> bool {
        *self == *other
    }

    fn key_str(&self) -> (r: &str) {
        match &self.id {
            Some(i) => i.as_str(),
            None => {
                let e = "";
                proof {
                    reveal_strlit("");
                }
                assert(e@ =~= Seq::<char>::empty());
                e
            },
        }
    }

    fn duplicate(&self) -> (r: Self) {
        self.copy()
    }
}

/// A record counts for the lowest price of day `now`: verified and seen
/// that day.
pub open spec fn counts_today(p: PriceRecord, now: int) -> bool {
    is_verified(p) && day_of(p.timestamp as int) == day_of(now)
}

/// Copies of the strings of a list.
pub fn copy_strings(v: &Vec<String>) -> (r: Vec<String>)
    ensures
        r@ == v@,
{
    let mut out: Vec<String> = Vec::new();
    let mut i: usize = 0;
    while i < v.len()
        invariant
            i <= v@.len(),
            out@ == v@.subrange(0, i as int),
        decreases v.len() - i,
    {
        out.push(v[i].clone());
        assert(out@ =~= v@.subrange(0, i + 1));
        i = i + 1;
    }
    assert(v@.subrange(0, v@.len() as int) =~= v@);
    out
}

/// Copies of the price records of a list.
pub fn copy_price_records(v: &Vec<PriceRecord>) -> (r: Vec<PriceRecord>)
    ensures
        r@ == v@,
{
    let mut out: Vec<PriceRecord> = Vec::new();
    let mut i: usize = 0;
    while i < v.len()
        invariant
            i <= v@.len(),
            out@ == v@.subrange(0, i as int),
        decreases v.len() - i,
    {
        out.push(v[i].copy());
        assert(out@ =~= v@.subrange(0, i + 1));
        i = i + 1;
    }
    assert(v@.subrange(0, v@.len() as int) =~= v@);
    out
}

/// Two products hold the same values; lists are compared by their items.
pub open spec fn same_product(a: Product, b: Product) -> bool {
    &&& a.id == b.id
    &&& a.name == b.name
    &&& a.category == b.category
    &&& a.description == b.description
    &&& a.barcode == b.barcode
    &&& a.images@ == b.images@
    &&& a.prices@ == b.prices@
    &&& a.tags@ == b.tags@
    &&& a.created_at == b.created_at
}

/// Two stores hold the same values; tags are compared by their items.
pub open spec fn same_store(a: Store, b: Store) -> bool {
    &&& a.id == b.id
    &&& a.name == b.name
    &&& a.address == b.address
    &&& a.latitude == b.latitude
    &&& a.longitude == b.longitude
    &&& a.rating == b.rating
    &&& a.opening_hours == b.opening_hours
    &&& a.phone == b.phone
    &&& a.tags@ == b.tags@
    &&& a.symbol == b.symbol
    &&& a.created_at == b.created_at
}

/// Of the records, `r` is the first with the lowest price among those that
/// count on the day of `now`; `None` when none counts.
pub open spec fn lowest_today(prices: Seq<PriceRecord>, now: int, r: Option<PriceRecord>) -> bool {
    match r {
        None => forall|j: int| 0 <= j < prices.len() ==> !counts_today(#[trigger] prices[j], now),
        Some(p) => exists|i: int|
            0 <= i < prices.len() && #[trigger] prices[i] == p && counts_today(p, now) && (forall|j: int|
                0 <= j < prices.len() && counts_today(#[trigger] prices[j], now) ==> p.price <= prices[j].price)
                && (forall|j: int| 0 <= j < i && counts_today(#[trigger] prices[j], now) ==> p.price < prices[j].price),
    }
}

/// The record a reference points to, if any.
pub open spec fn seen(r: Option<&PriceRecord>) -> Option<PriceRecord> {
    match r {
        Some(p) => Some(*p),
        None => None,
    }
}

/// A product with its price records.
#[derive(Debug, Clone)]
pub struct Product {
    pub id: String,
    pub name: String,
    pub category: String,
    pub description: String,
    pub barcode: Option<String>,
    pub images: Vec<String>,
    pub prices: Vec<PriceRecord>,
    pub tags: Vec<String>,
    pub created_at: i64,
}

impl Product {
    /// A copy of the product.
    pub fn copy(&self) -> (r: Self)
        ensures
            same_product(r, *self),
    {
        Product {
            id: self.id.clone(),
            name: self.name.clone(),
            category: self.category.clone(),
            description: self.description.clone(),
            barcode: self.barcode.clone(),
            images: copy_strings(&self.images),
            prices: copy_price_records(&self.prices),
            tags: copy_strings(&self.tags),
            created_at: self.created_at,
        }
    }

    /// A product with a fresh random id, created now, with no prices.
    pub fn new(
        name: String,
        category: String,
        description: String,
        barcode: Option<String>,
        images: Vec<String>,
        tags: Vec<String>,
    ) -> (r: Self)
        ensures
            uuid_text(r.id@),
            r.name == name,
            r.category == category,
            r.description == description,
            r.barcode == barcode,
            r.images == images,
            r.prices@.len() == 0,
            r.tags == tags,
    {
        Product {
            id: new_uuid_string(),
            name,
            category,
            description,
            barcode,
            images,
            prices: Vec::new(),
            tags,
            created_at: now_unix_seconds(),
        }
    }

    /// Of the verified records seen on the day of `now`, the first with the
    /// lowest price.
    pub fn current_lowest_price_at(&self, now: i64) -> (r: Option<&PriceRecord>)
        ensures
            lowest_today(self.prices@, now as int, seen(r)),
    {
        let today = day_index(now);
        let mut best: Option<usize> = None;
        let mut i: usize = 0;
        while i < self.prices.len()
            invariant
                today == day_of(now as int),
                i <= self.prices@.len(),
                match best {
                    None => forall|j: int| 0 <= j < i ==> !counts_today(#[trigger] self.prices@[j], now as int),
                    Some(b) => b < i && counts_today(self.prices@[b as int], now as int)
                        && (forall|j: int| 0 <= j < i && counts_today(#[trigger] self.prices@[j], now as int) ==> self.prices@[b as int].price <= self.prices@[j].price)
                        && (forall|j: int| 0 <= j < b && counts_today(#[trigger] self.prices@[j], now as int) ==> self.prices@[b as int].price < self.prices@[j].price),
                },
            decreases self.prices.len() - i,
        {
            let p = &self.prices[i];
            if str_eq(p.verification_status.as_str(), "verified") && day_index(p.timestamp) == today {
                match best {
                    None => {
                        best = Some(i);
                    },
                    Some(b) => {
                        if p.price < self.prices[b].price {
                            best = Some(i);
                        }
                    },
                }
            }
            i = i + 1;
        }
        match best {
            None => None,
            Some(b) => {
                assert(self.prices@[b as int] == self.prices@[b as int]);
                let r = &self.prices[b];
                assert(lowest_today(self.prices@, now as int, Some(*r)));
                Some(r)
            },
        }
    }

    /// The lowest verified price seen today; see `current_lowest_price_at`.
    pub fn current_lowest_price(&self) -> (r: Option<&PriceRecord>)
        ensures
            exists|now: i64| #[trigger] lowest_today(self.prices@, now as int, seen(r)),
    {
        let now = now_unix_seconds();
        self.current_lowest_price_at(now)
    }

    /// The verified records, in order.
    pub fn verified_prices(&self) -> (r: Vec<&PriceRecord>)
        ensures
            r@.map_values(|p: &PriceRecord| *p) == self.prices@.filter(|p: PriceRecord| is_verified(p)),
    {
        let ghost pred = |p: PriceRecord| is_verified(p);
        let mut out: Vec<&PriceRecord> = Vec::new();
        let mut i: usize = 0;
        while i < self.prices.len()
            invariant
                pred == (|p: PriceRecord| is_verified(p)),
                i <= self.prices@.len(),
                out@.map_values(|p: &PriceRecord| *p) == self.prices@.subrange(0, i as int).filter(pred),
            decreases self.prices.len() - i,
        {
            proof {
                reveal(Seq::filter);
            }
            assert(self.prices@.subrange(0, i + 1).drop_last() =~= self.prices@.subrange(0, i as int));
            assert(self.prices@.subrange(0, i + 1).last() == self.prices@[i as int]);
            let ghost before = out@;
            if str_eq(self.prices[i].verification_status.as_str(), "verified") {
                out.push(&self.prices[i]);
                assert(out@.map_values(|p: &PriceRecord| *p) =~= before.map_values(|p: &PriceRecord| *p).push(
                    self.prices@[i as int],
                ));
            }
            i = i + 1;
        }
        assert(self.prices@.subrange(0, self.prices@.len() as int) =~= self.prices@);
        out
    }
}

impl Record for Product {
    open spec fn key(&self) -> Seq<char> {
        self.id@
    }

    open spec fn same(&self, other: &Self) -> bool {
        same_product(*self, *other)
    }

    fn key_str(&self) -> (r: &str) {
        self.id.as_str()
    }

    fn duplicate(&self) -> (r: Self) {
        self.copy()
    }
}

/// A shop. Latitude and longitude are millionths of a degree; the rating is
/// in hundredths of a star.
#[derive(Debug, Clone)]
pub struct Store {
    pub id: String,
    pub name: String,
    pub address: String,
    pub latitude: i64,
    pub longitude: i64,
    pub rating: i64,
    pub opening_hours: String,
    pub phone: String,
    pub tags: Vec<String>,
    pub symbol: char,
    pub created_at: i64,
}

impl Store {
    /// A store with a fresh random id, created now, rated zero.
    pub fn new(
        name: String,
        address: String,
        latitude: i64,
        longitude: i64,
        opening_hours: String,
        phone: String,
        tags: Vec<String>,
        symbol: char,
    ) -> (r: Self)
        ensures
            uuid_text(r.id@),
            r.name == name,
            r.address == address,
            r.latitude == latitude,
            r.longitude == longitude,
            r.rating == 0,
            r.opening_hours == opening_hours,
            r.phone == phone,
            r.tags == tags,
            r.symbol == symbol,
    {
        Store {
            id: new_uuid_string(),
            name,
            address,
            latitude,
            longitude,
            rating: 0,
            opening_hours,
            phone,
            tags,
            symbol,
            created_at: now_unix_seconds(),
        }
    }
}

impl Record for Store {
    open spec fn key(&self) -> Seq<char> {
        self.id@
    }

    open spec fn same(&self, other: &Self) -> bool {
        same_store(*self, *other)
    }

    fn key_str(&self) -> (r: &str) {
        self.id.as_str()
    }

    fn duplicate(&self) -> (r: Self) {
        Store {
            id: self.id.clone(),
            name: self.name.clone(),
            address: self.address.clone(),
            latitude: self.latitude,
            longitude: self.longitude,
            rating: self.rating,
            opening_hours: self.opening_hours.clone(),
            phone: self.phone.clone(),
            tags: copy_strings(&self.tags),
            symbol: self.symbol,
            created_at: self.created_at,
        }
    }
}

} // verus!
