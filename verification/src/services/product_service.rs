//! The product catalogue: products with their price records, categories,
//! search, and statistics.
use vstd::prelude::*;
use crate::models::{counts_today, day_of, is_verified, PriceRecord, Product};
use crate::error::now_unix_seconds;
use crate::ranking::{rank_by_count, ranked_top};
use crate::services::{service_failure_of, ServiceError, ServiceFailure};
use crate::table::{
    copy_flagged, drop_key, find_key, flagged, get_copy, has_key, key_index, keys_distinct,
    lemma_flagged_filter, lemma_key_index, lemma_update_same_key, page, page_len, put, put_record,
    take, Record,
};
use crate::text::{
    all_whitespace, byte_len, chars_of, contains_seq, is_blank, owned, str_contains, str_eq, to_lowercase,
    unicode_to_lowercase, utf8_len,
};

verus! {

broadcast use vstd::string::group_string_axioms;

/// The categories a new catalogue starts with.
pub open spec fn default_categories() -> Seq<Seq<char>> {
    seq![
        "Beverages"@,
        "Snacks"@,
        "Food"@,
        "Personal Care"@,
        "Household"@,
        "Electronics"@,
        "Clothing"@,
        "Books"@,
        "Other"@,
    ]
}

/// The rule on product names, with the message of the failing check.
pub open spec fn product_name_outcome(name: Seq<char>) -> Result<(), Seq<char>> {
    if all_whitespace(name) {
        Err("Product name cannot be empty"@)
    } else if utf8_len(name) > 200 {
        Err("Product name too long"@)
    } else {
        Ok(())
    }
}

/// The rule on categories: one of the known ones.
pub open spec fn category_outcome(categories: Seq<Seq<char>>, category: Seq<char>) -> Result<(), Seq<char>> {
    if categories.contains(category) {
        Ok(())
    } else {
        Err("Invalid category: "@ + category)
    }
}

/// The rule on descriptions: at most 1000 bytes.
pub open spec fn description_outcome(description: Seq<char>) -> Result<(), Seq<char>> {
    if utf8_len(description) > 1000 {
        Err("Description too long"@)
    } else {
        Ok(())
    }
}

/// The product carries this barcode.
pub open spec fn has_barcode(p: Product, barcode: Seq<char>) -> bool {
    match p.barcode {
        Some(b) => b@ == barcode,
        None => false,
    }
}

/// Some product carries this barcode.
pub open spec fn barcode_used(products: Seq<Product>, barcode: Seq<char>) -> bool {
    exists|i: int| 0 <= i < products.len() && has_barcode(#[trigger] products[i], barcode)
}

/// Why creating a product is refused, if it is.
pub open spec fn create_refusal(
    products: Seq<Product>,
    categories: Seq<Seq<char>>,
    name: Seq<char>,
    category: Seq<char>,
    description: Seq<char>,
    barcode: Option<String>,
) -> Option<ServiceFailure> {
    if product_name_outcome(name) is Err {
        Some(ServiceFailure::ValidationError(product_name_outcome(name)->Err_0))
    } else if category_outcome(categories, category) is Err {
        Some(ServiceFailure::ValidationError(category_outcome(categories, category)->Err_0))
    } else if description_outcome(description) is Err {
        Some(ServiceFailure::ValidationError(description_outcome(description)->Err_0))
    } else if barcode is Some && barcode_used(products, barcode->Some_0@) {
        Some(ServiceFailure::ValidationError("Barcode already exists"@))
    } else {
        None
    }
}

/// The message of a missing product.
pub open spec fn product_not_found(id: Seq<char>) -> ServiceFailure {
    ServiceFailure::NotFound("Product "@ + id + " not found"@)
}

/// Why updating a product is refused, if it is.
pub open spec fn update_refusal(
    products: Seq<Product>,
    categories: Seq<Seq<char>>,
    id: Seq<char>,
    name: Option<String>,
    category: Option<String>,
    description: Option<String>,
) -> Option<ServiceFailure> {
    if name is Some && product_name_outcome(name->Some_0@) is Err {
        Some(ServiceFailure::ValidationError(product_name_outcome(name->Some_0@)->Err_0))
    } else if category is Some && category_outcome(categories, category->Some_0@) is Err {
        Some(ServiceFailure::ValidationError(category_outcome(categories, category->Some_0@)->Err_0))
    } else if description is Some && description_outcome(description->Some_0@) is Err {
        Some(ServiceFailure::ValidationError(description_outcome(description->Some_0@)->Err_0))
    } else if !has_key(products, id) {
        Some(product_not_found(id))
    } else {
        None
    }
}

/// Some tag, lower-cased, contains `q`.
pub open spec fn some_tag_contains(tags: Seq<String>, q: Seq<char>) -> bool {
    exists|t: int| 0 <= t < tags.len() && contains_seq(unicode_to_lowercase((#[trigger] tags[t])@), q)
}

/// A product matches a search: an empty query, or the lower-cased query
/// in its lower-cased name, description or a tag; and the category, when
/// one is given.
pub open spec fn search_hit(p: Product, query: Seq<char>, category: Option<Seq<char>>) -> bool {
    let q = unicode_to_lowercase(query);
    &&& (query.len() == 0 || contains_seq(unicode_to_lowercase(p.name@), q) || contains_seq(
        unicode_to_lowercase(p.description@),
        q,
    ) || some_tag_contains(p.tags@, q))
    &&& (category matches Some(c) ==> p.category@ == c)
}

/// The same items, each holding the same values.
pub open spec fn same_products(a: Seq<Product>, b: Seq<Product>) -> bool {
    a.len() == b.len() && forall|i: int| 0 <= i < a.len() ==> #[trigger] a[i].same(&b[i])
}

/// Verified and seen after `now` minus `days` days.
pub open spec fn in_history(now: int, days: int) -> spec_fn(PriceRecord) -> bool {
    |p: PriceRecord| p.timestamp > now - days * 86400 && is_verified(p)
}

/// For each product, the number of its records seen after `cutoff`.
pub open spec fn activity_counts(products: Seq<Product>, cutoff: int) -> Seq<i128> {
    products.map_values(|p: Product| p.prices@.filter(|x: PriceRecord| x.timestamp > cutoff).len() as i128)
}

/// Total number of price records.
pub open spec fn total_price_count(products: Seq<Product>) -> int
    decreases products.len(),
{
    if products.len() == 0 {
        0
    } else {
        total_price_count(products.drop_last()) + products.last().prices@.len()
    }
}

/// Total number of verified price records.
pub open spec fn total_verified_count(products: Seq<Product>) -> int
    decreases products.len(),
{
    if products.len() == 0 {
        0
    } else {
        total_verified_count(products.drop_last()) + products.last().prices@.filter(
            |p: PriceRecord| is_verified(p),
        ).len()
    }
}

/// The number of products in each category, listed in the order the
/// categories first appear among the products.
pub open spec fn category_tally(products: Seq<Product>) -> Seq<(Seq<char>, nat)>
    decreases products.len(),
{
    if products.len() == 0 {
        Seq::empty()
    } else {
        let t = category_tally(products.drop_last());
        let c = products.last().category@;
        if exists|k: int| 0 <= k < t.len() && (#[trigger] t[k]).0 == c {
            let k = choose|k: int| 0 <= k < t.len() && (#[trigger] t[k]).0 == c;
            t.update(k, (c, t[k].1 + 1))
        } else {
            t.push((c, 1nat))
        }
    }
}

/// Counts of products and price records, and products per category.
#[derive(Debug)]
pub struct ProductStats {
    pub total_products: usize,
    pub total_prices: usize,
    pub verified_prices: usize,
    pub category_counts: Vec<(String, usize)>,
    pub categories: Vec<String>,
}

/// Products and the categories they may belong to.
pub struct ProductService {
    products: Vec<Product>,
    categories: Vec<String>,
}

/// The characters of each string.
pub open spec fn string_views(v: Seq<String>) -> Seq<Seq<char>> {
    v.map_values(|s: String| s@)
}

/// A list of strings from literals.
fn strings_of(items: &[&str]) -> (r: Vec<String>)
    ensures
        string_views(r@) == items@.map_values(|s: &str| s@),
{
    let mut out: Vec<String> = Vec::new();
    let mut i: usize = 0;
    while i < items.len()
        invariant
            i <= items@.len(),
            out@.len() == i,
            forall|k: int| 0 <= k < i ==> (#[trigger] out@[k])@ == items@[k]@,
        decreases items.len() - i,
    {
        out.push(owned(items[i]));
        i = i + 1;
    }
    assert(string_views(out@) =~= items@.map_values(|s: &str| s@));
    out
}

/// The characters of the category, if one is given.
pub open spec fn category_view(c: Option<&str>) -> Option<Seq<char>> {
    match c {
        Some(c) => Some(c@),
        None => None,
    }
}

/// The search as a predicate on products.
pub open spec fn search_pred(query: Seq<char>, category: Option<Seq<char>>) -> spec_fn(Product) -> bool {
    |p: Product| search_hit(p, query, category)
}

impl ProductService {
    /// The products, in the order they were added.
    pub closed spec fn products(&self) -> Seq<Product> {
        self.products@
    }

    /// The known categories, in the order they were added.
    pub closed spec fn categories(&self) -> Seq<Seq<char>> {
        string_views(self.categories@)
    }

    /// No two products share an id.
    pub open spec fn wf(&self) -> bool {
        keys_distinct(self.products())
    }

    /// An empty catalogue with the default categories.
    pub fn new() -> (r: Self)
        ensures
            r.wf(),
            r.categories() == default_categories(),
            r.products().len() == 0,
    {
        let names: [&str; 9] = [
            "Beverages",
            "Snacks",
            "Food",
            "Personal Care",
            "Household",
            "Electronics",
            "Clothing",
            "Books",
            "Other",
        ];
        let categories = strings_of(&names);
        proof {
            reveal_strlit("Beverages");
            reveal_strlit("Snacks");
            reveal_strlit("Food");
            reveal_strlit("Personal Care");
            reveal_strlit("Household");
            reveal_strlit("Electronics");
            reveal_strlit("Clothing");
            reveal_strlit("Books");
            reveal_strlit("Other");
            assert(string_views(categories@) =~= default_categories());
        }
        ProductService { products: Vec::new(), categories }
    }

    fn check_name(name: &str) -> (r: Result<(), ServiceError>)
        ensures
            match product_name_outcome(name@) {
                Ok(()) => r is Ok,
                Err(m) => r matches Err(e) && service_failure_of(e) == ServiceFailure::ValidationError(m),
            },
    {
        if is_blank(name) {
            return Err(ServiceError::ValidationError(owned("Product name cannot be empty")));
        }
        if byte_len(name) > 200 {
            return Err(ServiceError::ValidationError(owned("Product name too long")));
        }
        Ok(())
    }

    fn has_category(&self, category: &str) -> (b: bool)
        ensures
            b == self.categories().contains(category@),
    {
        let mut i: usize = 0;
        while i < self.categories.len()
            invariant
                i <= self.categories@.len(),
                forall|j: int| 0 <= j < i ==> #[trigger] self.categories@[j]@ != category@,
            decreases self.categories.len() - i,
        {
            if str_eq(self.categories[i].as_str(), category) {
                assert(self.categories()[i as int] == category@);
                return true;
            }
            i = i + 1;
        }
        assert forall|j: int| 0 <= j < self.categories().len() implies #[trigger] self.categories()[j] != category@ by {
            assert(self.categories()[j] == self.categories@[j]@);
        }
        false
    }

    fn check_category(&self, category: &str) -> (r: Result<(), ServiceError>)
        ensures
            match category_outcome(self.categories(), category@) {
                Ok(()) => r is Ok,
                Err(m) => r matches Err(e) && service_failure_of(e) == ServiceFailure::ValidationError(m),
            },
    {
        if !self.has_category(category) {
            let mut m = owned("Invalid category: ");
            m.append(category);
            return Err(ServiceError::ValidationError(m));
        }
        Ok(())
    }

    fn check_description(description: &str) -> (r: Result<(), ServiceError>)
        ensures
            match description_outcome(description@) {
                Ok(()) => r is Ok,
                Err(m) => r matches Err(e) && service_failure_of(e) == ServiceFailure::ValidationError(m),
            },
    {
        if byte_len(description) > 1000 {
            return Err(ServiceError::ValidationError(owned("Description too long")));
        }
        Ok(())
    }

    fn barcode_position(&self, barcode: &str) -> (r: Option<usize>)
        ensures
            match r {
                Some(i) => i < self.products().len() && has_barcode(self.products()[i as int], barcode@)
                    && forall|j: int| 0 <= j < i ==> !has_barcode(#[trigger] self.products()[j], barcode@),
                None => !barcode_used(self.products(), barcode@),
            },
    {
        let mut i: usize = 0;
        while i < self.products.len()
            invariant
                i <= self.products@.len(),
                forall|j: int| 0 <= j < i ==> !has_barcode(#[trigger] self.products@[j], barcode@),
            decreases self.products.len() - i,
        {
            match &self.products[i].barcode {
                Some(b) => {
                    if str_eq(b.as_str(), barcode) {
                        return Some(i);
                    }
                },
                None => {},
            }
            i = i + 1;
        }
        None
    }

    fn not_found(product_id: &str) -> (e: ServiceError)
        ensures
            service_failure_of(e) == product_not_found(product_id@),
    {
        let mut m = owned("Product ");
        m.append(product_id);
        m.append(" not found");
        ServiceError::NotFound(m)
    }

    /// Add a product after checking name, category, description and that
    /// its barcode, if any, is not taken.
    pub fn create_product(
        &mut self,
        name: String,
        category: String,
        description: String,
        barcode: Option<String>,
        tags: Vec<String>,
    ) -> (r: Result<Product, ServiceError>)
        requires
            old(self).wf(),
        ensures
            final(self).wf(),
            final(self).categories() == old(self).categories(),
            create_refusal(old(self).products(), old(self).categories(), name@, category@, description@, barcode) matches Some(f)
                ==> (r matches Err(e) && service_failure_of(e) == f && final(self).products() == old(self).products()),
            create_refusal(old(self).products(), old(self).categories(), name@, category@, description@, barcode) is None
                ==> (r matches Ok(p) && p.name == name && p.category == category && p.description == description
                && p.barcode == barcode && p.tags == tags && p.images@.len() == 0 && p.prices@.len() == 0
                && exists|q: Product| q.same(&p) && final(self).products() == put_record(old(self).products(), q)),
    {
        Self::check_name(name.as_str())?;
        self.check_category(category.as_str())?;
        Self::check_description(description.as_str())?;
        match &barcode {
            Some(b) => {
                if self.barcode_position(b.as_str()).is_some() {
                    return Err(ServiceError::ValidationError(owned("Barcode already exists")));
                }
            },
            None => {},
        }
        let product = Product::new(name, category, description, barcode, Vec::new(), tags);
        let stored = product.duplicate();
        let ghost q = stored;
        put(&mut self.products, stored);
        assert(q.same(&product));
        Ok(product)
    }

    /// A copy of the product with this id.
    pub fn get_product(&self, product_id: &str) -> (r: Result<Product, ServiceError>)
        requires
            self.wf(),
        ensures
            has_key(self.products(), product_id@) ==> (r matches Ok(p) && p.same(
                &self.products()[key_index(self.products(), product_id@)],
            )),
            !has_key(self.products(), product_id@) ==> (r matches Err(e) && service_failure_of(e)
                == product_not_found(product_id@)),
    {
        match get_copy(&self.products, product_id) {
            Some(p) => Ok(p),
            None => Err(Self::not_found(product_id)),
        }
    }

    /// A copy of the first product carrying this barcode, if any.
    pub fn get_product_by_barcode(&self, barcode: &str) -> (r: Result<Option<Product>, ServiceError>)
        ensures
            r matches Ok(o) && match o {
                None => !barcode_used(self.products(), barcode@),
                Some(p) => exists|i: int|
                    0 <= i < self.products().len() && p.same(&#[trigger] self.products()[i]) && has_barcode(
                    self.products()[i],
                    barcode@,
                ) && forall|j: int| 0 <= j < i ==> !has_barcode(#[trigger] self.products()[j], barcode@),
            },
    {
        match self.barcode_position(barcode) {
            Some(i) => {
                let p = self.products[i].duplicate();
                assert(p.same(&self.products()[i as int]));
                Ok(Some(p))
            },
            None => Ok(None),
        }
    }

    /// Change name, category, description and tags; every given field is
    /// checked before any is applied.
    pub fn update_product(
        &mut self,
        product_id: &str,
        name: Option<String>,
        category: Option<String>,
        description: Option<String>,
        tags: Option<Vec<String>>,
    ) -> (r: Result<Product, ServiceError>)
        requires
            old(self).wf(),
        ensures
            final(self).wf(),
            final(self).categories() == old(self).categories(),
            update_refusal(old(self).products(), old(self).categories(), product_id@, name, category, description) matches Some(f)
                ==> (r matches Err(e) && service_failure_of(e) == f && final(self).products() == old(self).products()),
            update_refusal(old(self).products(), old(self).categories(), product_id@, name, category, description) is None
                ==> ({
                let i = key_index(old(self).products(), product_id@);
                let o = old(self).products()[i];
                r matches Ok(p) && p.id == o.id && p.name == (match name { Some(n) => n, None => o.name })
                    && p.category == (match category { Some(c) => c, None => o.category })
                    && p.description == (match description { Some(d) => d, None => o.description })
                    && p.tags@ == (match tags { Some(t) => t@, None => o.tags@ })
                    && p.barcode == o.barcode && p.images@ == o.images@ && p.prices@ == o.prices@
                    && p.created_at == o.created_at
                    && final(self).products().len() == old(self).products().len()
                    && final(self).products()[i].same(&p)
                    && forall|j: int| 0 <= j < old(self).products().len() && j != i ==> #[trigger] final(self).products()[j] == old(self).products()[j]
            }),
    {
        match &name {
            Some(n) => {
                Self::check_name(n.as_str())?;
            },
            None => {},
        }
        match &category {
            Some(c) => {
                self.check_category(c.as_str())?;
            },
            None => {},
        }
        match &description {
            Some(d) => {
                Self::check_description(d.as_str())?;
            },
            None => {},
        }
        let i = match find_key(&self.products, product_id) {
            Some(i) => i,
            None => {
                return Err(Self::not_found(product_id));
            },
        };
        let ghost old_products = self.products@;
        let mut p = self.products[i].duplicate();
        match name {
            Some(n) => {
                p.name = n;
            },
            None => {},
        }
        match category {
            Some(c) => {
                p.category = c;
            },
            None => {},
        }
        match description {
            Some(d) => {
                p.description = d;
            },
            None => {},
        }
        match tags {
            Some(t) => {
                p.tags = t;
            },
            None => {},
        }
        let stored = p.duplicate();
        proof {
            lemma_update_same_key(old_products, i as int, stored);
        }
        self.products.set(i, stored);
        Ok(p)
    }

    /// Remove the product with this id.
    pub fn delete_product(&mut self, product_id: &str) -> (r: Result<(), ServiceError>)
        requires
            old(self).wf(),
        ensures
            final(self).wf(),
            final(self).categories() == old(self).categories(),
            final(self).products() == drop_key(old(self).products(), product_id@),
            has_key(old(self).products(), product_id@) ==> r is Ok,
            !has_key(old(self).products(), product_id@) ==> (r matches Err(e) && service_failure_of(e)
                == product_not_found(product_id@)),
    {
        match take(&mut self.products, product_id) {
            Some(_) => Ok(()),
            None => Err(Self::not_found(product_id)),
        }
    }

    fn matches_search(p: &Product, query: &str, q: &str, category: Option<&str>) -> (b: bool)
        requires
            q@ == unicode_to_lowercase(query@),
        ensures
            b == search_hit(*p, query@, category_view(category)),
    {
        let category_ok = match category {
            Some(c) => str_eq(p.category.as_str(), c),
            None => true,
        };
        if !category_ok {
            return false;
        }
        if chars_of(query).len() == 0 {
            return true;
        }
        let name = to_lowercase(p.name.as_str());
        if str_contains(name.as_str(), q) {
            return true;
        }
        let desc = to_lowercase(p.description.as_str());
        if str_contains(desc.as_str(), q) {
            return true;
        }
        let mut t: usize = 0;
        while t < p.tags.len()
            invariant
                t <= p.tags@.len(),
                q@ == unicode_to_lowercase(query@),
                category_view(category) matches Some(c) ==> p.category@ == c,
                query@.len() != 0,
                !contains_seq(unicode_to_lowercase(p.name@), q@),
                !contains_seq(unicode_to_lowercase(p.description@), q@),
                forall|k: int| 0 <= k < t ==> !contains_seq(unicode_to_lowercase((#[trigger] p.tags@[k])@), q@),
            decreases p.tags.len() - t,
        {
            let tag = to_lowercase(p.tags[t].as_str());
            if str_contains(tag.as_str(), q) {
                assert(contains_seq(unicode_to_lowercase(p.tags@[t as int]@), q@));
                return true;
            }
            t = t + 1;
        }
        false
    }

    /// Copies of the products matching a search, in catalogue order.
    pub fn search_products(&self, query: &str, category: Option<&str>) -> (r: Result<Vec<Product>, ServiceError>)
        ensures
            r matches Ok(v) && same_products(v@, self.products().filter(search_pred(query@, category_view(category)))),
    {
        let ghost cat = category_view(category);
        let ghost pred = search_pred(query@, cat);
        let q = to_lowercase(query);
        let mut keep: Vec<bool> = Vec::new();
        let mut i: usize = 0;
        while i < self.products.len()
            invariant
                q@ == unicode_to_lowercase(query@),
                cat == category_view(category),
                i <= self.products@.len(),
                keep@.len() == i,
                forall|j: int| 0 <= j < i ==> #[trigger] keep@[j] == search_hit(self.products@[j], query@, cat),
            decreases self.products.len() - i,
        {
            keep.push(Self::matches_search(&self.products[i], query, q.as_str(), category));
            i = i + 1;
        }
        proof {
            lemma_flagged_filter(self.products@, keep@, pred);
        }
        Ok(copy_flagged(&self.products, &keep))
    }

    /// Copies of the products of a category, in catalogue order.
    pub fn get_products_by_category(&self, category: &str) -> (r: Result<Vec<Product>, ServiceError>)
        ensures
            r matches Ok(v) && same_products(v@, self.products().filter(|p: Product| p.category@ == category@)),
    {
        let ghost pred = |p: Product| p.category@ == category@;
        let mut keep: Vec<bool> = Vec::new();
        let mut i: usize = 0;
        while i < self.products.len()
            invariant
                i <= self.products@.len(),
                keep@.len() == i,
                forall|j: int| 0 <= j < i ==> #[trigger] keep@[j] == (self.products@[j].category@ == category@),
            decreases self.products.len() - i,
        {
            keep.push(str_eq(self.products[i].category.as_str(), category));
            i = i + 1;
        }
        proof {
            lemma_flagged_filter(self.products@, keep@, pred);
        }
        Ok(copy_flagged(&self.products, &keep))
    }

    /// The known categories.
    pub fn get_categories(&self) -> (r: Vec<String>)
        ensures
            string_views(r@) == self.categories(),
    {
        let mut out: Vec<String> = Vec::new();
        let mut i: usize = 0;
        while i < self.categories.len()
            invariant
                i <= self.categories@.len(),
                out@.len() == i,
                forall|k: int| 0 <= k < i ==> (#[trigger] out@[k])@ == self.categories@[k]@,
            decreases self.categories.len() - i,
        {
            out.push(self.categories[i].clone());
            i = i + 1;
        }
        assert(string_views(out@) =~= string_views(self.categories@));
        out
    }

    /// Add a category unless it is known already.
    pub fn add_category(&mut self, category: String) -> (r: Result<(), ServiceError>)
        requires
            old(self).wf(),
        ensures
            final(self).wf(),
            final(self).products() == old(self).products(),
            old(self).categories().contains(category@) ==> (r matches Err(e) && service_failure_of(e)
                == ServiceFailure::ValidationError("Category already exists"@) && final(self).categories()
                == old(self).categories()),
            !old(self).categories().contains(category@) ==> r is Ok && final(self).categories() == old(
                self,
            ).categories().push(category@),
    {
        if self.has_category(category.as_str()) {
            return Err(ServiceError::ValidationError(owned("Category already exists")));
        }
        let ghost before = self.categories@;
        self.categories.push(category);
        assert(string_views(self.categories@) =~= string_views(before).push(category@));
        Ok(())
    }

    /// Copies of the products from position `offset`, at most `limit`.
    pub fn list_products(&self, offset: usize, limit: usize) -> (r: Result<Vec<Product>, ServiceError>)
        ensures
            r matches Ok(v) && v@.len() == page_len(self.products().len() as int, offset as int, limit as int)
                && forall|i: int| 0 <= i < v@.len() ==> #[trigger] v@[i].same(&self.products()[offset + i]),
    {
        Ok(page(&self.products, offset, limit))
    }

    /// Append a price record to a product; the price must be positive.
    pub fn add_price_record(&mut self, product_id: &str, price_record: PriceRecord) -> (r: Result<(), ServiceError>)
        requires
            old(self).wf(),
        ensures
            final(self).wf(),
            final(self).categories() == old(self).categories(),
            !has_key(old(self).products(), product_id@) ==> (r matches Err(e) && service_failure_of(e)
                == product_not_found(product_id@)),
            has_key(old(self).products(), product_id@) && price_record.price <= 0 ==> (r matches Err(e)
                && service_failure_of(e) == ServiceFailure::ValidationError("Price must be positive"@)),
            r is Err ==> final(self).products() == old(self).products(),
            has_key(old(self).products(), product_id@) && price_record.price > 0 ==> ({
                let i = key_index(old(self).products(), product_id@);
                let o = old(self).products()[i];
                &&& r is Ok
                &&& final(self).products().len() == old(self).products().len()
                &&& final(self).products()[i].same(&Product { prices: final(self).products()[i].prices, ..o })
                &&& final(self).products()[i].prices@ == o.prices@.push(price_record)
                &&& forall|j: int| 0 <= j < old(self).products().len() && j != i ==> #[trigger] final(self).products()[j] == old(self).products()[j]
            }),
    {
        let i = match find_key(&self.products, product_id) {
            Some(i) => i,
            None => {
                return Err(Self::not_found(product_id));
            },
        };
        if price_record.price <= 0 {
            return Err(ServiceError::ValidationError(owned("Price must be positive")));
        }
        let ghost old_products = self.products@;
        let mut p = self.products[i].duplicate();
        p.prices.push(price_record);
        proof {
            lemma_update_same_key(old_products, i as int, p);
        }
        self.products.set(i, p);
        Ok(())
    }

    /// The lowest verified price of a product.
    pub fn get_current_lowest_price(&self, product_id: &str) -> (r: Result<Option<i64>, ServiceError>)
        requires
            self.wf(),
        ensures
            !has_key(self.products(), product_id@) ==> (r matches Err(e) && service_failure_of(e)
                == product_not_found(product_id@)),
            has_key(self.products(), product_id@) ==> ({
                let ps = self.products()[key_index(self.products(), product_id@)].prices@;
                r matches Ok(o) && match o {
                    None => forall|j: int| 0 <= j < ps.len() ==> !is_verified(#[trigger] ps[j]),
                    Some(m) => (exists|j: int| 0 <= j < ps.len() && is_verified(#[trigger] ps[j]) && ps[j].price == m)
                        && forall|j: int| 0 <= j < ps.len() && is_verified(#[trigger] ps[j]) ==> m <= ps[j].price,
                }
            }),
    {
        let i = match find_key(&self.products, product_id) {
            Some(i) => i,
            None => {
                return Err(Self::not_found(product_id));
            },
        };
        let prices = &self.products[i].prices;
        let mut best: Option<i64> = None;
        let mut j: usize = 0;
        while j < prices.len()
            invariant
                j <= prices@.len(),
                match best {
                    None => forall|k: int| 0 <= k < j ==> !is_verified(#[trigger] prices@[k]),
                    Some(m) => (exists|k: int| 0 <= k < j && is_verified(#[trigger] prices@[k]) && prices@[k].price == m)
                        && forall|k: int| 0 <= k < j && is_verified(#[trigger] prices@[k]) ==> m <= prices@[k].price,
                },
            decreases prices.len() - j,
        {
            if str_eq(prices[j].verification_status.as_str(), "verified") {
                let v = prices[j].price;
                match best {
                    None => {
                        best = Some(v);
                    },
                    Some(m) => {
                        if v < m {
                            best = Some(v);
                        }
                    },
                }
            }
            j = j + 1;
        }
        Ok(best)
    }

    /// The verified records of a product seen after `now` minus `days` days.
    pub fn get_price_history_at(&self, product_id: &str, days: i64, now: i64) -> (r: Result<Vec<PriceRecord>, ServiceError>)
        requires
            self.wf(),
        ensures
            !has_key(self.products(), product_id@) ==> (r matches Err(e) && service_failure_of(e)
                == product_not_found(product_id@)),
            has_key(self.products(), product_id@) ==> (r matches Ok(v) && v@ == self.products()[key_index(
                self.products(),
                product_id@,
            )].prices@.filter(in_history(now as int, days as int))),
    {
        let i = match find_key(&self.products, product_id) {
            Some(i) => i,
            None => {
                return Err(Self::not_found(product_id));
            },
        };
        let cutoff: i128 = (now as i128) - (days as i128) * 86400;
        let prices = &self.products[i].prices;
        let ghost pred = in_history(now as int, days as int);
        let mut out: Vec<PriceRecord> = Vec::new();
        let mut j: usize = 0;
        while j < prices.len()
            invariant
                cutoff == now - days * 86400,
                pred == in_history(now as int, days as int),
                j <= prices@.len(),
                out@ == prices@.subrange(0, j as int).filter(pred),
            decreases prices.len() - j,
        {
            proof {
                reveal(Seq::filter);
            }
            assert(prices@.subrange(0, j + 1).drop_last() =~= prices@.subrange(0, j as int));
            assert(prices@.subrange(0, j + 1).last() == prices@[j as int]);
            if (prices[j].timestamp as i128) > cutoff && str_eq(prices[j].verification_status.as_str(), "verified") {
                out.push(prices[j].duplicate());
            }
            j = j + 1;
        }
        assert(prices@.subrange(0, prices@.len() as int) =~= prices@);
        Ok(out)
    }

    /// The verified records of a product from the last `days` days.
    pub fn get_price_history(&self, product_id: &str, days: i64) -> (r: Result<Vec<PriceRecord>, ServiceError>)
        requires
            self.wf(),
            -106751991167 <= days <= 106751991167,
        ensures
            !has_key(self.products(), product_id@) ==> (r matches Err(e) && service_failure_of(e)
                == product_not_found(product_id@)),
            has_key(self.products(), product_id@) ==> exists|now: i64|
                r matches Ok(v) && v@ == self.products()[key_index(self.products(), product_id@)].prices@.filter(
                    #[trigger] in_history(now as int, days as int),
                ),
    {
        let now = now_unix_seconds();
        self.get_price_history_at(product_id, days, now)
    }

    /// Up to `limit` products, most records seen after `cutoff` first,
    /// catalogue order among equal counts.
    pub fn get_trending_products_since(&self, limit: usize, cutoff: i64) -> (r: Result<Vec<Product>, ServiceError>)
        ensures
            r matches Ok(v) && exists|order: Seq<usize>|
                #[trigger] ranked_top(activity_counts(self.products(), cutoff as int), limit as int, order) && v@.len() == order.len() && forall|k: int| 0 <= k < v@.len() ==> #[trigger] v@[k].same(&self.products()[order[k] as int]),
    {
        let ghost counts_spec = activity_counts(self.products@, cutoff as int);
        let mut counts: Vec<i128> = Vec::new();
        let mut i: usize = 0;
        while i < self.products.len()
            invariant
                i <= self.products@.len(),
                counts_spec == activity_counts(self.products@, cutoff as int),
                counts@ == counts_spec.subrange(0, i as int),
            decreases self.products.len() - i,
        {
            let prices = &self.products[i].prices;
            let ghost pred = |x: PriceRecord| x.timestamp > cutoff;
            let mut c: usize = 0;
            let mut j: usize = 0;
            while j < prices.len()
                invariant
                    pred == (|x: PriceRecord| x.timestamp > cutoff),
                    j <= prices@.len(),
                    c == prices@.subrange(0, j as int).filter(pred).len(),
                    c <= j,
                decreases prices.len() - j,
            {
                proof {
                    reveal(Seq::filter);
                }
                assert(prices@.subrange(0, j + 1).drop_last() =~= prices@.subrange(0, j as int));
                assert(prices@.subrange(0, j + 1).last() == prices@[j as int]);
                if prices[j].timestamp > cutoff {
                    c = c + 1;
                }
                j = j + 1;
            }
            assert(prices@.subrange(0, prices@.len() as int) =~= prices@);
            counts.push(c as i128);
            assert(counts@ =~= counts_spec.subrange(0, i + 1));
            i = i + 1;
        }
        assert(counts_spec.subrange(0, self.products@.len() as int) =~= counts_spec);
        let order = rank_by_count(&counts, limit);
        let mut out: Vec<Product> = Vec::new();
        let mut k: usize = 0;
        while k < order.len()
            invariant
                ranked_top(counts@, limit as int, order@),
                counts@.len() == self.products@.len(),
                k <= order@.len(),
                out@.len() == k,
                forall|m: int| 0 <= m < k ==> #[trigger] out@[m].same(&self.products@[order@[m] as int]),
            decreases order.len() - k,
        {
            assert(order@[k as int] < counts@.len());
            out.push(self.products[order[k]].duplicate());
            k = k + 1;
        }
        assert(ranked_top(activity_counts(self.products(), cutoff as int), limit as int, order@));
        Ok(out)
    }

    /// Up to `limit` products with the most records from the last week.
    pub fn get_trending_products(&self, limit: usize) -> (r: Result<Vec<Product>, ServiceError>)
        ensures
            r matches Ok(v) && exists|cutoff: i64, order: Seq<usize>|
                #[trigger] ranked_top(activity_counts(self.products(), cutoff as int), limit as int, order) && v@.len() == order.len() && forall|k: int| 0 <= k < v@.len() ==> #[trigger] v@[k].same(&self.products()[order[k] as int]),
    {
        let now = now_unix_seconds();
        let cutoff: i64 = if now >= i64::MIN + 604800 {
            now - 604800
        } else {
            i64::MIN
        };
        self.get_trending_products_since(limit, cutoff)
    }
}

/// The categories of a tally are distinct.
pub open spec fn tally_distinct(t: Seq<(Seq<char>, nat)>) -> bool {
    forall|a: int, b: int| 0 <= a < t.len() && 0 <= b < t.len() && a != b ==> #[trigger] t[a].0 != #[trigger] t[b].0
}

/// The tally of a list of products lists each category once.
pub proof fn lemma_tally_distinct(products: Seq<Product>)
    ensures
        tally_distinct(category_tally(products)),
    decreases products.len(),
{
    if products.len() > 0 {
        lemma_tally_distinct(products.drop_last());
    }
}

/// A tally with its counts as machine integers and its categories as strings.
pub open spec fn tally_view(v: Seq<(String, usize)>) -> Seq<(Seq<char>, nat)> {
    v.map_values(|e: (String, usize)| (e.0@, e.1 as nat))
}

impl ProductService {
    fn verified_count(prices: &Vec<PriceRecord>) -> (c: usize)
        ensures
            c == prices@.filter(|p: PriceRecord| is_verified(p)).len(),
    {
        let ghost pred = |p: PriceRecord| is_verified(p);
        let mut c: usize = 0;
        let mut j: usize = 0;
        while j < prices.len()
            invariant
                pred == (|p: PriceRecord| is_verified(p)),
                j <= prices@.len(),
                c == prices@.subrange(0, j as int).filter(pred).len(),
                c <= j,
            decreases prices.len() - j,
        {
            proof {
                reveal(Seq::filter);
            }
            assert(prices@.subrange(0, j + 1).drop_last() =~= prices@.subrange(0, j as int));
            assert(prices@.subrange(0, j + 1).last() == prices@[j as int]);
            if str_eq(prices[j].verification_status.as_str(), "verified") {
                c = c + 1;
            }
            j = j + 1;
        }
        assert(prices@.subrange(0, prices@.len() as int) =~= prices@);
        c
    }

    /// Counts of products, of price records and of verified ones, the
    /// number of products per category, and the known categories.
    pub fn get_product_stats(&self) -> (r: Result<ProductStats, ServiceError>)
        requires
            total_price_count(self.products()) <= usize::MAX,
        ensures
            r matches Ok(st) && st.total_products == self.products().len() && st.total_prices
                == total_price_count(self.products()) && st.verified_prices == total_verified_count(
                self.products(),
            ) && tally_view(st.category_counts@) == category_tally(self.products()) && string_views(
                st.categories@,
            ) == self.categories(),
    {
        let mut total: usize = 0;
        let mut verified: usize = 0;
        let mut tally: Vec<(String, usize)> = Vec::new();
        let mut i: usize = 0;
        while i < self.products.len()
            invariant
                i <= self.products@.len(),
                total_price_count(self.products@) <= usize::MAX,
                total == total_price_count(self.products@.subrange(0, i as int)),
                verified == total_verified_count(self.products@.subrange(0, i as int)),
                verified <= total,
                tally_view(tally@) == category_tally(self.products@.subrange(0, i as int)),
                tally@.len() <= i,
                forall|k: int| 0 <= k < tally@.len() ==> #[trigger] tally@[k].1 <= i,
            decreases self.products.len() - i,
        {
            let ghost pre = self.products@.subrange(0, i as int);
            let ghost cur = self.products@.subrange(0, i + 1);
            assert(cur.drop_last() =~= pre);
            assert(cur.last() == self.products@[i as int]);
            proof {
                self.lemma_total_prefix(i as int);
                lemma_tally_distinct(pre);
            }
            let p = &self.products[i];
            let vc = Self::verified_count(&p.prices);
            proof {
                p.prices@.lemma_filter_len(|x: PriceRecord| is_verified(x));
            }
            total = total + p.prices.len();
            verified = verified + vc;
            let mut k: usize = 0;
            let mut found: Option<usize> = None;
            while k < tally.len() && found.is_none()
                invariant
                    k <= tally@.len(),
                    found is None ==> forall|m: int| 0 <= m < k ==> (#[trigger] tally@[m]).0@ != p.category@,
                    found matches Some(f) ==> f < tally@.len() && tally@[f as int].0@ == p.category@,
                    found is None || k == tally@.len(),
                decreases tally.len() - k,
            {
                if str_eq(tally[k].0.as_str(), p.category.as_str()) {
                    found = Some(k);
                    k = tally.len();
                } else {
                    k = k + 1;
                }
            }
            let ghost tv = tally_view(tally@);
            match found {
                Some(k) => {
                    assert(tv[k as int].0 == p.category@);
                    let ghost kk = choose|m: int| 0 <= m < tv.len() && (#[trigger] tv[m]).0 == p.category@;
                    assert(kk == k as int) by {
                        if kk != k as int {
                            assert(tv[kk].0 != tv[k as int].0);
                        }
                    }
                    let name = tally[k].0.clone();
                    let n = tally[k].1;
                    tally.set(k, (name, n + 1));
                    assert(tally_view(tally@) =~= tv.update(k as int, (p.category@, tv[k as int].1 + 1)));
                },
                None => {
                    assert(!exists|m: int| 0 <= m < tv.len() && (#[trigger] tv[m]).0 == p.category@) by {
                        assert forall|m: int| 0 <= m < tv.len() implies (#[trigger] tv[m]).0 != p.category@ by {
                            assert(tv[m].0 == tally@[m].0@);
                            assert(tally@[m].0@ != p.category@);
                        }
                    }
                    tally.push((p.category.clone(), 1));
                    assert(tally_view(tally@) =~= tv.push((p.category@, 1nat)));
                },
            }
            i = i + 1;
        }
        assert(self.products@.subrange(0, self.products@.len() as int) =~= self.products@);
        Ok(ProductStats {
            total_products: self.products.len(),
            total_prices: total,
            verified_prices: verified,
            category_counts: tally,
            categories: self.get_categories(),
        })
    }

    proof fn lemma_total_prefix(&self, i: int)
        requires
            0 <= i < self.products@.len(),
        ensures
            total_price_count(self.products@.subrange(0, i + 1)) <= total_price_count(self.products@),
            total_verified_count(self.products@.subrange(0, i + 1)) <= total_price_count(self.products@.subrange(0, i + 1)),
        decreases self.products@.len() - i,
    {
        lemma_totals_monotone(self.products@, i + 1);
        lemma_verified_le_total(self.products@.subrange(0, i + 1));
    }
}

/// The totals of a prefix are at most those of the whole list.
pub proof fn lemma_totals_monotone(s: Seq<Product>, n: int)
    requires
        0 <= n <= s.len(),
    ensures
        total_price_count(s.subrange(0, n)) <= total_price_count(s),
    decreases s.len() - n,
{
    if n < s.len() {
        lemma_totals_monotone(s, n + 1);
        assert(s.subrange(0, n + 1).drop_last() =~= s.subrange(0, n));
    } else {
        assert(s.subrange(0, n) =~= s);
    }
}

/// Verified records are at most all records.
pub proof fn lemma_verified_le_total(s: Seq<Product>)
    ensures
        total_verified_count(s) <= total_price_count(s),
    decreases s.len(),
{
    if s.len() > 0 {
        lemma_verified_le_total(s.drop_last());
        s.last().prices@.lemma_filter_len(|x: PriceRecord| is_verified(x));
    }
}

impl Default for ProductService {
    fn default() -> (r: Self)
        ensures
            r.wf(),
            r.categories() == default_categories(),
            r.products().len() <= 3,
    {
        Self::new()
    }
}

} // verus!
