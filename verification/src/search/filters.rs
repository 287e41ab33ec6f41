//! The settings a search is narrowed and ordered by.
//!
//! Prices are hundredths of the currency unit, ratings hundredths of a
//! star, distances metres, weights hundredths, times Unix seconds.
use vstd::prelude::*;
use crate::text::owned;

verus! {

broadcast use vstd::string::group_string_axioms;

/// Bounds on the price.
#[derive(Debug, Clone)]
pub struct PriceRange {
    pub min_price: Option<i64>,
    pub max_price: Option<i64>,
    pub include_sale_prices: bool,
    pub currency: String,
}

/// A category to search in.
#[derive(Debug, Clone)]
pub struct CategoryFilter {
    pub category_id: String,
    pub category_name: String,
    pub include_subcategories: bool,
    pub weight: i64,
}

/// A store to search in.
#[derive(Debug, Clone)]
pub struct StoreFilter {
    pub store_id: String,
    pub store_name: String,
    pub max_distance_m: Option<i64>,
    pub preferred: bool,
    pub minimum_rating: Option<i64>,
}

/// Which stock states to show.
#[derive(Debug, Clone, Copy, PartialEq, Eq, Structural)]
pub enum AvailabilityFilter {
    All,
    InStock,
    OutOfStock,
    LimitedStock,
    PreOrder,
}

/// A window of time.
#[derive(Debug, Clone, Copy)]
pub struct TimeRange {
    pub start_date: Option<i64>,
    pub end_date: Option<i64>,
    pub last_updated_hours: Option<u32>,
}

/// A lower bound on ratings.
#[derive(Debug, Clone, Copy)]
pub struct RatingFilter {
    pub min_rating: i64,
    pub min_review_count: Option<u32>,
    pub verified_reviews_only: bool,
}

/// Which promotions to show.
#[derive(Debug, Clone, Copy, PartialEq, Eq, Structural)]
pub enum PromotionFilter {
    All,
    OnSale,
    HasCoupon,
    BuyOneGetOne,
    BulkDiscount,
    NoPromotions,
}

/// Which review states of prices to show.
#[derive(Debug, Clone, Copy, PartialEq, Eq, Structural)]
pub enum VerificationFilter {
    All,
    Verified,
    Pending,
    Rejected,
}

/// What results are ordered by.
#[derive(Debug, Clone, Copy, PartialEq, Eq, Structural)]
pub enum SortField {
    Relevance,
    Price,
    Name,
    Rating,
    Distance,
    LastUpdated,
    PopularityScore,
    PriceChange,
}

/// Which way results are ordered.
#[derive(Debug, Clone, Copy, PartialEq, Eq, Structural)]
pub enum SortDirection {
    Ascending,
    Descending,
}

/// The order of results.
#[derive(Debug, Clone, Copy)]
pub struct SortOptions {
    pub primary_sort: SortField,
    pub secondary_sort: Option<SortField>,
    pub sort_direction: SortDirection,
}

/// All the settings of a search.
#[derive(Debug, Clone)]
pub struct SearchFilters {
    pub price_range: Option<PriceRange>,
    pub categories: Vec<CategoryFilter>,
    pub stores: Vec<StoreFilter>,
    pub tags: Vec<String>,
    pub availability: AvailabilityFilter,
    pub time_range: Option<TimeRange>,
    pub rating_filter: Option<RatingFilter>,
    pub promotion_filter: PromotionFilter,
    pub verification_status: VerificationFilter,
    pub sort_options: SortOptions,
}

/// The settings of a fresh search: nothing narrowed, verified prices only,
/// by relevance then price, descending.
pub open spec fn is_default_filters(f: SearchFilters) -> bool {
    &&& f.price_range is None
    &&& f.categories@.len() == 0
    &&& f.stores@.len() == 0
    &&& f.tags@.len() == 0
    &&& f.availability == AvailabilityFilter::All
    &&& f.time_range is None
    &&& f.rating_filter is None
    &&& f.promotion_filter == PromotionFilter::All
    &&& f.verification_status == VerificationFilter::Verified
    &&& f.sort_options.primary_sort == SortField::Relevance
    &&& f.sort_options.secondary_sort == Some(SortField::Price)
    &&& f.sort_options.sort_direction == SortDirection::Descending
}

/// Nothing narrows the search (sorting and the review state aside).
pub open spec fn filters_empty(f: SearchFilters) -> bool {
    &&& f.price_range is None
    &&& f.categories@.len() == 0
    &&& f.stores@.len() == 0
    &&& f.tags@.len() == 0
    &&& f.availability == AvailabilityFilter::All
    &&& f.time_range is None
    &&& f.rating_filter is None
    &&& f.promotion_filter == PromotionFilter::All
}

/// The first rule the settings break, if any.
pub open spec fn filters_outcome(f: SearchFilters) -> Result<(), Seq<char>> {
    if f.price_range matches Some(p) && p.min_price is Some && p.max_price is Some && p.min_price->Some_0
        > p.max_price->Some_0 {
        Err("Minimum price cannot be greater than maximum price"@)
    } else if f.price_range matches Some(p) && p.min_price is Some && p.max_price is Some && (p.min_price->Some_0
        < 0 || p.max_price->Some_0 < 0) {
        Err("Prices cannot be negative"@)
    } else if f.rating_filter matches Some(r) && (r.min_rating < 0 || r.min_rating > 500) {
        Err("Rating must be between 0 and 5"@)
    } else if f.time_range matches Some(t) && t.start_date is Some && t.end_date is Some && t.start_date->Some_0
        > t.end_date->Some_0 {
        Err("Start date cannot be after end date"@)
    } else {
        Ok(())
    }
}

impl Default for PriceRange {
    fn default() -> (r: Self)
        ensures
            r.min_price is None,
            r.max_price is None,
            r.include_sale_prices,
            r.currency@ == "CNY"@,
    {
        PriceRange { min_price: None, max_price: None, include_sale_prices: true, currency: owned("CNY") }
    }
}

impl Default for SearchFilters {
    fn default() -> (r: Self)
        ensures
            is_default_filters(r),
    {
        SearchFilters {
            price_range: None,
            categories: Vec::new(),
            stores: Vec::new(),
            tags: Vec::new(),
            availability: AvailabilityFilter::All,
            time_range: None,
            rating_filter: None,
            promotion_filter: PromotionFilter::All,
            verification_status: VerificationFilter::Verified,
            sort_options: SortOptions {
                primary_sort: SortField::Relevance,
                secondary_sort: Some(SortField::Price),
                sort_direction: SortDirection::Descending,
            },
        }
    }
}

/// Two sets of search settings hold the same values; lists are compared by
/// their items.
pub open spec fn same_filters(a: SearchFilters, b: SearchFilters) -> bool {
    &&& a.price_range == b.price_range
    &&& a.categories@ == b.categories@
    &&& a.stores@ == b.stores@
    &&& a.tags@ == b.tags@
    &&& a.availability == b.availability
    &&& a.time_range == b.time_range
    &&& a.rating_filter == b.rating_filter
    &&& a.promotion_filter == b.promotion_filter
    &&& a.verification_status == b.verification_status
    &&& a.sort_options == b.sort_options
}

/// Copies of the category filters of a list.
fn copy_category_filters(v: &Vec<CategoryFilter>) -> (r: Vec<CategoryFilter>)
    ensures
        r@ == v@,
{
    let mut out: Vec<CategoryFilter> = Vec::new();
    let mut i: usize = 0;
    while i < v.len()
        invariant
            i <= v@.len(),
            out@ == v@.subrange(0, i as int),
        decreases v.len() - i,
    {
        let x = &v[i];
        out.push(
            CategoryFilter {
                category_id: x.category_id.clone(),
                category_name: x.category_name.clone(),
                include_subcategories: x.include_subcategories,
                weight: x.weight,
            },
        );
        assert(out@ =~= v@.subrange(0, i + 1));
        i = i + 1;
    }
    assert(v@.subrange(0, v@.len() as int) =~= v@);
    out
}

/// Copies of the store filters of a list.
fn copy_store_filters(v: &Vec<StoreFilter>) -> (r: Vec<StoreFilter>)
    ensures
        r@ == v@,
{
    let mut out: Vec<StoreFilter> = Vec::new();
    let mut i: usize = 0;
    while i < v.len()
        invariant
            i <= v@.len(),
            out@ == v@.subrange(0, i as int),
        decreases v.len() - i,
    {
        let x = &v[i];
        out.push(
            StoreFilter {
                store_id: x.store_id.clone(),
                store_name: x.store_name.clone(),
                max_distance_m: x.max_distance_m,
                preferred: x.preferred,
                minimum_rating: x.minimum_rating,
            },
        );
        assert(out@ =~= v@.subrange(0, i + 1));
        i = i + 1;
    }
    assert(v@.subrange(0, v@.len() as int) =~= v@);
    out
}

impl SearchFilters {
    /// A copy of the settings.
    pub fn copy(&self) -> (r: Self)
        ensures
            same_filters(r, *self),
    {
        let price_range = match &self.price_range {
            Some(p) => Some(
                PriceRange {
                    min_price: p.min_price,
                    max_price: p.max_price,
                    include_sale_prices: p.include_sale_prices,
                    currency: p.currency.clone(),
                },
            ),
            None => None,
        };
        SearchFilters {
            price_range,
            categories: copy_category_filters(&self.categories),
            stores: copy_store_filters(&self.stores),
            tags: crate::models::copy_strings(&self.tags),
            availability: self.availability,
            time_range: self.time_range,
            rating_filter: self.rating_filter,
            promotion_filter: self.promotion_filter,
            verification_status: self.verification_status,
            sort_options: self.sort_options,
        }
    }

    /// Default settings with a price range, sale prices included, in CNY.
    pub fn with_price_range(min_price: Option<i64>, max_price: Option<i64>) -> (r: Self)
        ensures
            r.price_range matches Some(p) && p.min_price == min_price && p.max_price == max_price
                && p.include_sale_prices && p.currency@ == "CNY"@,
            is_default_filters(SearchFilters { price_range: None, ..r }),
    {
        SearchFilters {
            price_range: Some(
                PriceRange { min_price, max_price, include_sale_prices: true, currency: owned("CNY") },
            ),
            ..Self::default()
        }
    }

    /// Add a category with weight one.
    pub fn add_category(&mut self, category_id: String, category_name: String, include_subcategories: bool)
        ensures
            final(self).categories@ == old(self).categories@.push(
                CategoryFilter { category_id, category_name, include_subcategories, weight: 100 },
            ),
            *final(self) == (SearchFilters { categories: final(self).categories, ..*old(self) }),
    {
        self.categories.push(CategoryFilter { category_id, category_name, include_subcategories, weight: 100 });
    }

    /// Add a store, not preferred, without a minimum rating.
    pub fn add_store(&mut self, store_id: String, store_name: String, max_distance: Option<i64>)
        ensures
            final(self).stores@ == old(self).stores@.push(
                StoreFilter { store_id, store_name, max_distance_m: max_distance, preferred: false, minimum_rating: None },
            ),
            *final(self) == (SearchFilters { stores: final(self).stores, ..*old(self) }),
    {
        self.stores.push(
            StoreFilter { store_id, store_name, max_distance_m: max_distance, preferred: false, minimum_rating: None },
        );
    }

    /// Choose the stock states shown.
    pub fn set_availability(&mut self, availability: AvailabilityFilter)
        ensures
            *final(self) == (SearchFilters { availability, ..*old(self) }),
    {
        self.availability = availability;
    }

    /// Choose the promotions shown.
    pub fn set_promotion_filter(&mut self, promotion: PromotionFilter)
        ensures
            *final(self) == (SearchFilters { promotion_filter: promotion, ..*old(self) }),
    {
        self.promotion_filter = promotion;
    }

    /// Choose the main order and its direction.
    pub fn set_sort(&mut self, field: SortField, direction: SortDirection)
        ensures
            *final(self) == (SearchFilters {
                sort_options: SortOptions {
                    primary_sort: field,
                    sort_direction: direction,
                    ..old(self).sort_options
                },
                ..*old(self)
            }),
    {
        self.sort_options.primary_sort = field;
        self.sort_options.sort_direction = direction;
    }

    /// Append tags.
    pub fn add_tags(&mut self, tags: Vec<String>)
        ensures
            final(self).tags@ == old(self).tags@ + tags@,
            *final(self) == (SearchFilters { tags: final(self).tags, ..*old(self) }),
    {
        let ghost start = self.tags@;
        let mut i: usize = 0;
        while i < tags.len()
            invariant
                i <= tags@.len(),
                self.tags@ == start + tags@.subrange(0, i as int),
                *self == (SearchFilters { tags: self.tags, ..*old(self) }),
            decreases tags.len() - i,
        {
            self.tags.push(tags[i].clone());
            assert(self.tags@ =~= start + tags@.subrange(0, i + 1));
            i = i + 1;
        }
        assert(tags@.subrange(0, tags@.len() as int) =~= tags@);
    }

    /// Nothing narrows the search.
    pub fn is_empty(&self) -> (b: bool)
        ensures
            b == filters_empty(*self),
    {
        self.price_range.is_none() && self.categories.len() == 0 && self.stores.len() == 0 && self.tags.len() == 0
            && self.availability == AvailabilityFilter::All && self.time_range.is_none()
            && self.rating_filter.is_none() && self.promotion_filter == PromotionFilter::All
    }

    /// Back to the default settings.
    pub fn reset(&mut self)
        ensures
            is_default_filters(*final(self)),
    {
        *self = Self::default();
    }

    /// Check that the bounds are consistent.
    pub fn validate(&self) -> (r: Result<(), String>)
        ensures
            match filters_outcome(*self) {
                Ok(()) => r is Ok,
                Err(m) => r matches Err(s) && s@ == m,
            },
    {
        match &self.price_range {
            Some(p) => {
                match (p.min_price, p.max_price) {
                    (Some(min), Some(max)) => {
                        if min > max {
                            return Err(owned("Minimum price cannot be greater than maximum price"));
                        }
                        if min < 0 || max < 0 {
                            return Err(owned("Prices cannot be negative"));
                        }
                    },
                    _ => {},
                }
            },
            None => {},
        }
        match &self.rating_filter {
            Some(r) => {
                if r.min_rating < 0 || r.min_rating > 500 {
                    return Err(owned("Rating must be between 0 and 5"));
                }
            },
            None => {},
        }
        match &self.time_range {
            Some(t) => {
                match (t.start_date, t.end_date) {
                    (Some(start), Some(end)) => {
                        if start > end {
                            return Err(owned("Start date cannot be after end date"));
                        }
                    },
                    _ => {},
                }
            },
            None => {},
        }
        Ok(())
    }
}

} // verus!
