//! Stores: creating, checking, updating, searching and summarising them.
//! Coordinates are millionths of a degree; ratings hundredths of a star.
use vstd::prelude::*;
use crate::models::{copy_strings, same_store, Store};
use crate::services::{service_failure_of, ServiceError, ServiceFailure};
use crate::table::{
    copy_flagged, drop_key, find_key, flagged, get_copy, has_key, key_index, keys_distinct,
    lemma_flagged_filter, lemma_update_same_key, page, page_len, put, put_record, take, tally_of,
    tally_strings, counts_view, views_of, Record,
};
use crate::utils::crypto::uuid_text;
use crate::text::{
    all_whitespace, byte_len, contains_seq, is_blank, owned, str_contains, str_eq, to_lowercase,
    unicode_to_lowercase, utf8_len,
};

verus! {

broadcast use vstd::string::group_string_axioms;

/// The rule on store names.
pub open spec fn store_name_outcome(s: Seq<char>) -> Result<(), Seq<char>> {
    if all_whitespace(s) {
        Err("Store name cannot be empty"@)
    } else if utf8_len(s) > 200 {
        Err("Store name too long"@)
    } else {
        Ok(())
    }
}

/// The rule on addresses.
pub open spec fn address_outcome(s: Seq<char>) -> Result<(), Seq<char>> {
    if all_whitespace(s) {
        Err("Address cannot be empty"@)
    } else if utf8_len(s) > 500 {
        Err("Address too long"@)
    } else {
        Ok(())
    }
}

/// The rule on coordinates: a latitude within 90 degrees and a longitude
/// within 180 degrees of zero.
pub open spec fn coordinates_outcome(latitude: int, longitude: int) -> Result<(), Seq<char>> {
    if latitude < -90_000_000 || latitude > 90_000_000 {
        Err("Invalid latitude"@)
    } else if longitude < -180_000_000 || longitude > 180_000_000 {
        Err("Invalid longitude"@)
    } else {
        Ok(())
    }
}

/// The rule on phone numbers: not blank, 10 to 20 bytes.
pub open spec fn phone_outcome(s: Seq<char>) -> Result<(), Seq<char>> {
    if all_whitespace(s) {
        Err("Phone cannot be empty"@)
    } else if utf8_len(s) < 10 || utf8_len(s) > 20 {
        Err("Invalid phone number format"@)
    } else {
        Ok(())
    }
}

/// The first failing rule among the checks of a new store.
pub open spec fn store_data_outcome(name: Seq<char>, address: Seq<char>, latitude: int, longitude: int, phone: Seq<char>) -> Result<(), Seq<char>> {
    if store_name_outcome(name) is Err {
        store_name_outcome(name)
    } else if address_outcome(address) is Err {
        address_outcome(address)
    } else if coordinates_outcome(latitude, longitude) is Err {
        coordinates_outcome(latitude, longitude)
    } else {
        phone_outcome(phone)
    }
}

/// The message of a missing store.
pub open spec fn store_not_found(id: Seq<char>) -> ServiceFailure {
    ServiceFailure::NotFound("Store "@ + id + " not found"@)
}

/// Why an update is refused, if it is.
pub open spec fn store_update_refusal(
    stores: Seq<Store>,
    id: Seq<char>,
    name: Option<String>,
    address: Option<String>,
    latitude: Option<i64>,
    longitude: Option<i64>,
    phone: Option<String>,
) -> Option<ServiceFailure> {
    if name is Some && store_name_outcome(name->Some_0@) is Err {
        Some(ServiceFailure::ValidationError(store_name_outcome(name->Some_0@)->Err_0))
    } else if address is Some && address_outcome(address->Some_0@) is Err {
        Some(ServiceFailure::ValidationError(address_outcome(address->Some_0@)->Err_0))
    } else if phone is Some && phone_outcome(phone->Some_0@) is Err {
        Some(ServiceFailure::ValidationError(phone_outcome(phone->Some_0@)->Err_0))
    } else if !has_key(stores, id) {
        Some(store_not_found(id))
    } else if latitude is Some && coordinates_outcome(
        latitude->Some_0 as int,
        stores[key_index(stores, id)].longitude as int,
    ) is Err {
        Some(
            ServiceFailure::ValidationError(
                coordinates_outcome(latitude->Some_0 as int, stores[key_index(stores, id)].longitude as int)->Err_0,
            ),
        )
    } else if longitude is Some && coordinates_outcome(
        stores[key_index(stores, id)].latitude as int,
        longitude->Some_0 as int,
    ) is Err {
        Some(
            ServiceFailure::ValidationError(
                coordinates_outcome(stores[key_index(stores, id)].latitude as int, longitude->Some_0 as int)->Err_0,
            ),
        )
    } else {
        None
    }
}

/// Some tag of the store, lower-cased, contains `q`.
pub open spec fn tag_contains(tags: Seq<String>, q: Seq<char>) -> bool {
    exists|t: int| 0 <= t < tags.len() && contains_seq(unicode_to_lowercase((#[trigger] tags[t])@), q)
}

/// The lower-cased name, address or a tag contains the lower-cased query.
pub open spec fn store_hit(query: Seq<char>) -> spec_fn(Store) -> bool {
    |s: Store| {
        let q = unicode_to_lowercase(query);
        contains_seq(unicode_to_lowercase(s.name@), q) || contains_seq(unicode_to_lowercase(s.address@), q)
            || tag_contains(s.tags@, q)
    }
}

/// The store carries the tag.
pub open spec fn tagged(tag: Seq<char>) -> spec_fn(Store) -> bool {
    |s: Store| views_of(s.tags@).contains(tag)
}

/// The store lies within the box.
pub open spec fn within(north: int, south: int, east: int, west: int) -> spec_fn(Store) -> bool {
    |s: Store| south <= s.latitude <= north && west <= s.longitude <= east
}

/// The rating band of a store.
pub open spec fn rating_band(rating: int) -> Seq<char> {
    if rating >= 450 {
        "excellent"@
    } else if rating >= 400 {
        "very_good"@
    } else if rating >= 350 {
        "good"@
    } else if rating >= 300 {
        "average"@
    } else {
        "below_average"@
    }
}

/// All tags of all stores, store by store.
pub open spec fn all_tags(stores: Seq<Store>) -> Seq<Seq<char>>
    decreases stores.len(),
{
    if stores.len() == 0 {
        Seq::empty()
    } else {
        all_tags(stores.drop_last()) + views_of(stores.last().tags@)
    }
}

/// The rating band of each store.
pub open spec fn bands(stores: Seq<Store>) -> Seq<Seq<char>> {
    stores.map_values(|s: Store| rating_band(s.rating as int))
}

/// Sum of the ratings.
pub open spec fn rating_sum(stores: Seq<Store>) -> int
    decreases stores.len(),
{
    if stores.len() == 0 {
        0
    } else {
        rating_sum(stores.drop_last()) + stores.last().rating
    }
}

/// The same items, each holding the same values.
pub open spec fn same_stores(a: Seq<Store>, b: Seq<Store>) -> bool {
    a.len() == b.len() && forall|i: int| 0 <= i < a.len() ==> #[trigger] a[i].same(&b[i])
}

/// Counts over the stores: how many, the sum of ratings, how often each
/// tag is used and how many stores fall in each rating band.
#[derive(Debug)]
pub struct StoreStats {
    pub total_stores: usize,
    pub rating_sum: i128,
    pub tag_counts: Vec<(String, usize)>,
    pub stores_by_rating: Vec<(String, usize)>,
}

/// The stores, each under its own id.
pub struct StoreService {
    stores: Vec<Store>,
}

/// A sample store: one of the three sample names, a fresh random id, and the
/// rating given by the length of its id.
pub open spec fn sample_store_ok(s: Store) -> bool {
    &&& (s.name@ == "FamilyMart Tokyo Station"@ || s.name@ == "Matsumoto Kiyoshi Shinjuku"@ || s.name@
        == "Don Quijote Shibuya"@)
    &&& uuid_text(s.id@)
    &&& s.rating == 400 + (utf8_len(s.id@) % 10) * 10
}

/// The stores found in a box of latitudes and longitudes are exactly the
/// stored stores inside it: each one found lies between south and north and
/// between west and east, and each stored store that does is found.
pub proof fn law_stores_in_bounds(stores: Seq<Store>, found: Seq<Store>, north: int, south: int, east: int, west: int)
    requires
        same_stores(found, stores.filter(within(north, south, east, west))),
    ensures
        forall|k: int|
            0 <= k < found.len() ==> south <= (#[trigger] found[k]).latitude <= north && west <= found[k].longitude
                <= east,
        forall|j: int|
            0 <= j < stores.len() && south <= (#[trigger] stores[j]).latitude <= north && west <= stores[j].longitude
                <= east ==> exists|k: int| 0 <= k < found.len() && found[k].same(&stores[j]),
{
    broadcast use vstd::seq_lib::group_filter_ensures;
    let pred = within(north, south, east, west);
    let f = stores.filter(pred);
    assert forall|k: int| 0 <= k < found.len() implies south <= (#[trigger] found[k]).latitude <= north && west
        <= found[k].longitude <= east by {
        assert(found[k].same(&f[k]));
        assert(pred(f[k]));
    }
    assert forall|j: int|
        0 <= j < stores.len() && south <= (#[trigger] stores[j]).latitude <= north && west <= stores[j].longitude
            <= east implies exists|k: int| 0 <= k < found.len() && found[k].same(&stores[j]) by {
        assert(pred(stores[j]));
        assert(f.contains(stores[j]));
        let k = choose|k: int| 0 <= k < f.len() && f[k] == stores[j];
        assert(found[k].same(&f[k]));
    }
}

/// Storing a sample store among sample stores leaves only sample stores.
proof fn lemma_put_keeps_samples(s: Seq<Store>, x: Store)
    requires
        forall|i: int| 0 <= i < s.len() ==> sample_store_ok(#[trigger] s[i]),
        sample_store_ok(x),
    ensures
        forall|i: int| 0 <= i < put_record(s, x).len() ==> sample_store_ok(#[trigger] put_record(s, x)[i]),
{
    let t = put_record(s, x);
    assert forall|i: int| 0 <= i < t.len() implies sample_store_ok(#[trigger] t[i]) by {
        if i < s.len() && t[i] != x {
            assert(t[i] == s[i]);
        }
    }
}

impl StoreService {
    /// The stores, in the order they were added.
    pub closed spec fn stores(&self) -> Seq<Store> {
        self.stores@
    }

    /// No two stores share an id.
    pub open spec fn wf(&self) -> bool {
        keys_distinct(self.stores())
    }

    /// A directory with the sample stores.
    pub fn new() -> (r: Self)
        ensures
            r.wf(),
            1 <= r.stores().len() <= 3,
            forall|i: int| 0 <= i < r.stores().len() ==> sample_store_ok(#[trigger] r.stores()[i]),
    {
        let mut service = StoreService { stores: Vec::new() };
        service.init_sample_stores();
        service
    }

    fn sample_store(name: &str, address: &str, latitude: i64, longitude: i64, hours: &str, phone: &str, tag_a: &str, tag_b: &str) -> (s: Store)
        ensures
            uuid_text(s.id@),
            s.name@ == name@,
            s.address@ == address@,
            s.latitude == latitude,
            s.longitude == longitude,
            s.opening_hours@ == hours@,
            s.phone@ == phone@,
            views_of(s.tags@) == seq![tag_a@, tag_b@],
            s.symbol == '🏪',
            s.rating == 400 + (utf8_len(s.id@) % 10) * 10,
    {
        let mut store = Store::new(
            owned(name),
            owned(address),
            latitude,
            longitude,
            owned(hours),
            owned(phone),
            vec![owned(tag_a), owned(tag_b)],
            '🏪',
        );
        let n = byte_len(store.id.as_str());
        store.rating = 400 + ((n % 10) as i64) * 10;
        assert(views_of(store.tags@) =~= seq![tag_a@, tag_b@]);
        store
    }

    fn init_sample_stores(&mut self)
        requires
            old(self).stores().len() == 0,
        ensures
            final(self).wf(),
            1 <= final(self).stores().len() <= 3,
            forall|i: int| 0 <= i < final(self).stores().len() ==> sample_store_ok(#[trigger] final(self).stores()[i]),
    {
        let a = Self::sample_store(
            "FamilyMart Tokyo Station",
            "Tokyo, Chiyoda, Marunouchi 1-9-1",
            35681200,
            139767100,
            "24 hours",
            "03-1234-5678",
            "convenience",
            "24h",
        );
        let b = Self::sample_store(
            "Matsumoto Kiyoshi Shinjuku",
            "Tokyo, Shinjuku, Shinjuku 3-1-1",
            35689500,
            139691700,
            "10:00-22:00",
            "03-2345-6789",
            "pharmacy",
            "cosmetics",
        );
        let c = Self::sample_store(
            "Don Quijote Shibuya",
            "Tokyo, Shibuya, Dogenzaka 2-25-5",
            35658000,
            139699400,
            "24 hours",
            "03-3456-7890",
            "variety",
            "24h",
        );
        proof {
            reveal_strlit("FamilyMart Tokyo Station");
            reveal_strlit("Matsumoto Kiyoshi Shinjuku");
            reveal_strlit("Don Quijote Shibuya");
        }
        assert(sample_store_ok(a));
        assert(sample_store_ok(b));
        assert(sample_store_ok(c));
        put(&mut self.stores, a);
        proof {
            lemma_put_keeps_samples(old(self).stores(), a);
        }
        let ghost s1 = self.stores();
        put(&mut self.stores, b);
        proof {
            lemma_put_keeps_samples(s1, b);
        }
        let ghost s2 = self.stores();
        put(&mut self.stores, c);
        proof {
            lemma_put_keeps_samples(s2, c);
        }
    }

    fn check_name(name: &str) -> (r: Result<(), ServiceError>)
        ensures
            match store_name_outcome(name@) {
                Ok(()) => r is Ok,
                Err(m) => r matches Err(e) && service_failure_of(e) == ServiceFailure::ValidationError(m),
            },
    {
        if is_blank(name) {
            return Err(ServiceError::ValidationError(owned("Store name cannot be empty")));
        }
        if byte_len(name) > 200 {
            return Err(ServiceError::ValidationError(owned("Store name too long")));
        }
        Ok(())
    }

    fn check_address(address: &str) -> (r: Result<(), ServiceError>)
        ensures
            match address_outcome(address@) {
                Ok(()) => r is Ok,
                Err(m) => r matches Err(e) && service_failure_of(e) == ServiceFailure::ValidationError(m),
            },
    {
        if is_blank(address) {
            return Err(ServiceError::ValidationError(owned("Address cannot be empty")));
        }
        if byte_len(address) > 500 {
            return Err(ServiceError::ValidationError(owned("Address too long")));
        }
        Ok(())
    }

    fn check_coordinates(latitude: i64, longitude: i64) -> (r: Result<(), ServiceError>)
        ensures
            match coordinates_outcome(latitude as int, longitude as int) {
                Ok(()) => r is Ok,
                Err(m) => r matches Err(e) && service_failure_of(e) == ServiceFailure::ValidationError(m),
            },
    {
        if latitude < -90_000_000 || latitude > 90_000_000 {
            return Err(ServiceError::ValidationError(owned("Invalid latitude")));
        }
        if longitude < -180_000_000 || longitude > 180_000_000 {
            return Err(ServiceError::ValidationError(owned("Invalid longitude")));
        }
        Ok(())
    }

    fn check_phone(phone: &str) -> (r: Result<(), ServiceError>)
        ensures
            match phone_outcome(phone@) {
                Ok(()) => r is Ok,
                Err(m) => r matches Err(e) && service_failure_of(e) == ServiceFailure::ValidationError(m),
            },
    {
        if is_blank(phone) {
            return Err(ServiceError::ValidationError(owned("Phone cannot be empty")));
        }
        let n = byte_len(phone);
        if n < 10 || n > 20 {
            return Err(ServiceError::ValidationError(owned("Invalid phone number format")));
        }
        Ok(())
    }

    /// Add a store after checking its name, address, coordinates and phone.
    pub fn create_store(
        &mut self,
        name: String,
        address: String,
        latitude: i64,
        longitude: i64,
        opening_hours: String,
        phone: String,
        tags: Vec<String>,
        symbol: char,
    ) -> (r: Result<Store, ServiceError>)
        requires
            old(self).wf(),
        ensures
            final(self).wf(),
            store_data_outcome(name@, address@, latitude as int, longitude as int, phone@) matches Err(m) ==> (r matches Err(
                e,
            ) && service_failure_of(e) == ServiceFailure::ValidationError(m) && final(self).stores() == old(self).stores()),
            store_data_outcome(name@, address@, latitude as int, longitude as int, phone@) is Ok ==> (r matches Ok(s)
                && s.name == name && s.address == address && s.latitude == latitude && s.longitude == longitude
                && s.rating == 0 && s.opening_hours == opening_hours && s.phone == phone && s.tags == tags
                && s.symbol == symbol && exists|q: Store| q.same(&s) && final(self).stores() == put_record(old(self).stores(), q)),
    {
        Self::check_name(name.as_str())?;
        Self::check_address(address.as_str())?;
        Self::check_coordinates(latitude, longitude)?;
        Self::check_phone(phone.as_str())?;
        let store = Store::new(name, address, latitude, longitude, opening_hours, phone, tags, symbol);
        let stored = store.duplicate();
        let ghost q = stored;
        put(&mut self.stores, stored);
        assert(q.same(&store));
        Ok(store)
    }

    fn not_found(store_id: &str) -> (e: ServiceError)
        ensures
            service_failure_of(e) == store_not_found(store_id@),
    {
        let mut m = owned("Store ");
        m.append(store_id);
        m.append(" not found");
        ServiceError::NotFound(m)
    }

    /// A copy of the store with this id.
    pub fn get_store(&self, store_id: &str) -> (r: Result<Store, ServiceError>)
        requires
            self.wf(),
        ensures
            has_key(self.stores(), store_id@) ==> (r matches Ok(s) && s.same(
                &self.stores()[key_index(self.stores(), store_id@)],
            )),
            !has_key(self.stores(), store_id@) ==> (r matches Err(e) && service_failure_of(e)
                == store_not_found(store_id@)),
    {
        match get_copy(&self.stores, store_id) {
            Some(s) => Ok(s),
            None => Err(Self::not_found(store_id)),
        }
    }

    /// Change any of a store's details; every given field is checked
    /// before any is applied.
    pub fn update_store(
        &mut self,
        store_id: &str,
        name: Option<String>,
        address: Option<String>,
        latitude: Option<i64>,
        longitude: Option<i64>,
        opening_hours: Option<String>,
        phone: Option<String>,
        tags: Option<Vec<String>>,
    ) -> (r: Result<Store, ServiceError>)
        requires
            old(self).wf(),
        ensures
            final(self).wf(),
            store_update_refusal(old(self).stores(), store_id@, name, address, latitude, longitude, phone) matches Some(f)
                ==> (r matches Err(e) && service_failure_of(e) == f && final(self).stores() == old(self).stores()),
            store_update_refusal(old(self).stores(), store_id@, name, address, latitude, longitude, phone) is None ==> ({
                let i = key_index(old(self).stores(), store_id@);
                let o = old(self).stores()[i];
                r matches Ok(s) && s.id == o.id && s.name == (match name { Some(x) => x, None => o.name })
                    && s.address == (match address { Some(x) => x, None => o.address })
                    && s.latitude == (match latitude { Some(x) => x, None => o.latitude })
                    && s.longitude == (match longitude { Some(x) => x, None => o.longitude })
                    && s.opening_hours == (match opening_hours { Some(x) => x, None => o.opening_hours })
                    && s.phone == (match phone { Some(x) => x, None => o.phone })
                    && s.tags@ == (match tags { Some(x) => x@, None => o.tags@ })
                    && s.rating == o.rating && s.symbol == o.symbol && s.created_at == o.created_at
                    && final(self).stores().len() == old(self).stores().len()
                    && final(self).stores()[i].same(&s)
                    && forall|j: int| 0 <= j < old(self).stores().len() && j != i ==> #[trigger] final(self).stores()[j] == old(self).stores()[j]
            }),
    {
        match &name {
            Some(x) => {
                Self::check_name(x.as_str())?;
            },
            None => {},
        }
        match &address {
            Some(x) => {
                Self::check_address(x.as_str())?;
            },
            None => {},
        }
        match &phone {
            Some(x) => {
                Self::check_phone(x.as_str())?;
            },
            None => {},
        }
        let i = match find_key(&self.stores, store_id) {
            Some(i) => i,
            None => {
                return Err(Self::not_found(store_id));
            },
        };
        match latitude {
            Some(lat) => {
                Self::check_coordinates(lat, self.stores[i].longitude)?;
            },
            None => {},
        }
        match longitude {
            Some(lng) => {
                Self::check_coordinates(self.stores[i].latitude, lng)?;
            },
            None => {},
        }
        let ghost before = self.stores@;
        let mut s = self.stores[i].duplicate();
        match name {
            Some(x) => {
                s.name = x;
            },
            None => {},
        }
        match address {
            Some(x) => {
                s.address = x;
            },
            None => {},
        }
        match latitude {
            Some(x) => {
                s.latitude = x;
            },
            None => {},
        }
        match longitude {
            Some(x) => {
                s.longitude = x;
            },
            None => {},
        }
        match opening_hours {
            Some(x) => {
                s.opening_hours = x;
            },
            None => {},
        }
        match phone {
            Some(x) => {
                s.phone = x;
            },
            None => {},
        }
        match tags {
            Some(x) => {
                s.tags = x;
            },
            None => {},
        }
        let stored = s.duplicate();
        proof {
            lemma_update_same_key(before, i as int, stored);
        }
        self.stores.set(i, stored);
        Ok(s)
    }

    /// Remove the store with this id.
    pub fn delete_store(&mut self, store_id: &str) -> (r: Result<(), ServiceError>)
        requires
            old(self).wf(),
        ensures
            final(self).wf(),
            final(self).stores() == drop_key(old(self).stores(), store_id@),
            has_key(old(self).stores(), store_id@) ==> r is Ok,
            !has_key(old(self).stores(), store_id@) ==> (r matches Err(e) && service_failure_of(e)
                == store_not_found(store_id@)),
    {
        match take(&mut self.stores, store_id) {
            Some(_) => Ok(()),
            None => Err(Self::not_found(store_id)),
        }
    }

    fn copy_selected(&self, keep: &Vec<bool>, pred: Ghost<spec_fn(Store) -> bool>) -> (r: Vec<Store>)
        requires
            keep@.len() == self.stores@.len(),
            forall|j: int| 0 <= j < keep@.len() ==> #[trigger] keep@[j] == pred@(self.stores@[j]),
        ensures
            same_stores(r@, self.stores().filter(pred@)),
    {
        proof {
            lemma_flagged_filter(self.stores@, keep@, pred@);
        }
        copy_flagged(&self.stores, keep)
    }

    /// Copies of the stores whose lower-cased name, address or a tag
    /// contains the lower-cased query.
    pub fn search_stores(&self, query: &str) -> (r: Result<Vec<Store>, ServiceError>)
        ensures
            r matches Ok(v) && same_stores(v@, self.stores().filter(store_hit(query@))),
    {
        let q = to_lowercase(query);
        let mut keep: Vec<bool> = Vec::new();
        let mut i: usize = 0;
        while i < self.stores.len()
            invariant
                q@ == unicode_to_lowercase(query@),
                i <= self.stores@.len(),
                keep@.len() == i,
                forall|j: int| 0 <= j < i ==> #[trigger] keep@[j] == (store_hit(query@))(self.stores@[j]),
            decreases self.stores.len() - i,
        {
            let s = &self.stores[i];
            let name = to_lowercase(s.name.as_str());
            let addr = to_lowercase(s.address.as_str());
            let mut hit = str_contains(name.as_str(), q.as_str()) || str_contains(addr.as_str(), q.as_str());
            let mut t: usize = 0;
            while t < s.tags.len()
                invariant
                    q@ == unicode_to_lowercase(query@),
                    t <= s.tags@.len(),
                    hit == (contains_seq(unicode_to_lowercase(s.name@), q@) || contains_seq(
                        unicode_to_lowercase(s.address@),
                        q@,
                    ) || exists|k: int| 0 <= k < t && contains_seq(unicode_to_lowercase((#[trigger] s.tags@[k])@), q@)),
                decreases s.tags.len() - t,
            {
                let tag = to_lowercase(s.tags[t].as_str());
                if str_contains(tag.as_str(), q.as_str()) {
                    hit = true;
                }
                t = t + 1;
            }
            keep.push(hit);
            i = i + 1;
        }
        Ok(self.copy_selected(&keep, Ghost(store_hit(query@))))
    }

    /// Copies of the stores carrying a tag.
    pub fn get_stores_by_tag(&self, tag: &str) -> (r: Result<Vec<Store>, ServiceError>)
        ensures
            r matches Ok(v) && same_stores(v@, self.stores().filter(tagged(tag@))),
    {
        let mut keep: Vec<bool> = Vec::new();
        let mut i: usize = 0;
        while i < self.stores.len()
            invariant
                i <= self.stores@.len(),
                keep@.len() == i,
                forall|j: int| 0 <= j < i ==> #[trigger] keep@[j] == (tagged(tag@))(self.stores@[j]),
            decreases self.stores.len() - i,
        {
            keep.push(crate::table::holds_string(&self.stores[i].tags, tag));
            i = i + 1;
        }
        Ok(self.copy_selected(&keep, Ghost(tagged(tag@))))
    }

    /// Copies of the stores from position `offset`, at most `limit`.
    pub fn list_stores(&self, offset: usize, limit: usize) -> (r: Result<Vec<Store>, ServiceError>)
        ensures
            r matches Ok(v) && v@.len() == page_len(self.stores().len() as int, offset as int, limit as int)
                && forall|i: int| 0 <= i < v@.len() ==> #[trigger] v@[i].same(&self.stores()[offset + i]),
    {
        Ok(page(&self.stores, offset, limit))
    }

    /// Set a store's rating, in hundredths of a star from 0 to 500, and
    /// return it.
    pub fn update_store_rating(&mut self, store_id: &str, new_rating: i64) -> (r: Result<i64, ServiceError>)
        requires
            old(self).wf(),
        ensures
            final(self).wf(),
            !has_key(old(self).stores(), store_id@) ==> (r matches Err(e) && service_failure_of(e)
                == store_not_found(store_id@)),
            has_key(old(self).stores(), store_id@) && (new_rating < 0 || new_rating > 500) ==> (r matches Err(e)
                && service_failure_of(e) == ServiceFailure::ValidationError("Rating must be between 0 and 5"@)),
            r is Err ==> final(self).stores() == old(self).stores(),
            has_key(old(self).stores(), store_id@) && 0 <= new_rating <= 500 ==> ({
                let i = key_index(old(self).stores(), store_id@);
                &&& r == Ok::<i64, ServiceError>(new_rating)
                &&& final(self).stores().len() == old(self).stores().len()
                &&& final(self).stores()[i].same(&Store { rating: new_rating, ..old(self).stores()[i] })
                &&& forall|j: int| 0 <= j < old(self).stores().len() && j != i ==> #[trigger] final(self).stores()[j] == old(self).stores()[j]
            }),
    {
        let i = match find_key(&self.stores, store_id) {
            Some(i) => i,
            None => {
                return Err(Self::not_found(store_id));
            },
        };
        if new_rating < 0 || new_rating > 500 {
            return Err(ServiceError::ValidationError(owned("Rating must be between 0 and 5")));
        }
        let ghost before = self.stores@;
        let mut s = self.stores[i].duplicate();
        s.rating = new_rating;
        proof {
            lemma_update_same_key(before, i as int, s);
        }
        self.stores.set(i, s);
        Ok(new_rating)
    }

    /// Counts over the stores: the number of stores, the sum of ratings,
    /// tag use and rating bands, each listed in order of first appearance.
    pub fn get_store_stats(&self) -> (r: Result<StoreStats, ServiceError>)
        ensures
            r matches Ok(st) && st.total_stores == self.stores().len() && st.rating_sum == rating_sum(self.stores())
                && counts_view(st.tag_counts@) == tally_of(all_tags(self.stores())) && counts_view(
                st.stores_by_rating@,
            ) == tally_of(bands(self.stores())),
    {
        let mut sum: i128 = 0;
        let mut tags: Vec<String> = Vec::new();
        let mut band_names: Vec<String> = Vec::new();
        let mut i: usize = 0;
        while i < self.stores.len()
            invariant
                i <= self.stores@.len(),
                sum == rating_sum(self.stores@.subrange(0, i as int)),
                -0x8000_0000_0000_0000 * i <= sum <= 0x8000_0000_0000_0000 * i,
                views_of(tags@) == all_tags(self.stores@.subrange(0, i as int)),
                band_names@.len() == i,
                forall|j: int| 0 <= j < i ==> (#[trigger] band_names@[j])@ == rating_band(self.stores@[j].rating as int),
            decreases self.stores.len() - i,
        {
            let ghost pre = self.stores@.subrange(0, i as int);
            assert(self.stores@.subrange(0, i + 1).drop_last() =~= pre);
            let s = &self.stores[i];
            sum = sum + s.rating as i128;
            let ghost tags_before = tags@;
            let mut t: usize = 0;
            while t < s.tags.len()
                invariant
                    t <= s.tags@.len(),
                    tags@.len() == tags_before.len() + t,
                    forall|k: int| 0 <= k < tags_before.len() ==> #[trigger] tags@[k] == tags_before[k],
                    forall|k: int| 0 <= k < t ==> (#[trigger] tags@[tags_before.len() + k])@ == s.tags@[k]@,
                decreases s.tags.len() - t,
            {
                tags.push(s.tags[t].clone());
                t = t + 1;
            }
            assert(views_of(tags@) =~= views_of(tags_before) + views_of(s.tags@)) by {
                assert forall|k: int| 0 <= k < tags@.len() implies #[trigger] views_of(tags@)[k] == (views_of(tags_before) + views_of(s.tags@))[k] by {
                    if k >= tags_before.len() {
                        assert(tags@[tags_before.len() + (k - tags_before.len())]@ == s.tags@[k - tags_before.len()]@);
                    }
                }
            }
            let band = if s.rating >= 450 {
                "excellent"
            } else if s.rating >= 400 {
                "very_good"
            } else if s.rating >= 350 {
                "good"
            } else if s.rating >= 300 {
                "average"
            } else {
                "below_average"
            };
            band_names.push(owned(band));
            i = i + 1;
        }
        assert(self.stores@.subrange(0, self.stores@.len() as int) =~= self.stores@);
        assert(views_of(band_names@) =~= bands(self.stores@));
        Ok(
            StoreStats {
                total_stores: self.stores.len(),
                rating_sum: sum,
                tag_counts: tally_strings(&tags),
                stores_by_rating: tally_strings(&band_names),
            },
        )
    }

    /// Copies of the stores inside a box of latitudes and longitudes.
    pub fn get_stores_in_bounds(&self, north: i64, south: i64, east: i64, west: i64) -> (r: Result<Vec<Store>, ServiceError>)
        ensures
            r matches Ok(v) && same_stores(v@, self.stores().filter(within(north as int, south as int, east as int, west as int))),
            r matches Ok(v) && forall|k: int|
                0 <= k < v@.len() ==> south <= (#[trigger] v@[k]).latitude <= north && west <= v@[k].longitude <= east,
            r matches Ok(v) && forall|j: int|
                0 <= j < self.stores().len() && south <= (#[trigger] self.stores()[j]).latitude <= north && west
                    <= self.stores()[j].longitude <= east ==> exists|k: int| 0 <= k < v@.len() && v@[k].same(&self.stores()[j]),
    {
        let ghost pred = within(north as int, south as int, east as int, west as int);
        let mut keep: Vec<bool> = Vec::new();
        let mut i: usize = 0;
        while i < self.stores.len()
            invariant
                pred == within(north as int, south as int, east as int, west as int),
                i <= self.stores@.len(),
                keep@.len() == i,
                forall|j: int| 0 <= j < i ==> #[trigger] keep@[j] == pred(self.stores@[j]),
            decreases self.stores.len() - i,
        {
            let s = &self.stores[i];
            keep.push(s.latitude >= south && s.latitude <= north && s.longitude >= west && s.longitude <= east);
            i = i + 1;
        }
        let found = self.copy_selected(&keep, Ghost(pred));
        proof {
            law_stores_in_bounds(self.stores(), found@, north as int, south as int, east as int, west as int);
        }
        Ok(found)
    }
}

impl Default for StoreService {
    fn default() -> (r: Self)
        ensures
            r.wf(),
            1 <= r.stores().len() <= 3,
    {
        Self::new()
    }
}

} // verus!
