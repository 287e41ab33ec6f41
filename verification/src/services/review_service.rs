//! Reviews of stores and products: one per user and item, rated one to
//! five stars, with queries and summaries.
use vstd::prelude::*;
use crate::models::UserReview;
use crate::ranking::{rank_by_count, ranked_top};
use crate::services::{service_failure_of, ServiceError, ServiceFailure};
use crate::table::{
    copy_flagged, distinct_strings, drop_key, find_key, first_appearances, flagged, has_key,
    key_index, keys_distinct, lemma_flagged_filter, lemma_key_index, lemma_update_same_key,
    lookup_key, put, put_record, take, views_of, Record,
};
use crate::text::{
    all_whitespace, byte_len, contains_seq, is_blank, owned, str_contains, str_eq, to_lowercase,
    unicode_to_lowercase, utf8_len,
};

verus! {

broadcast use vstd::string::group_string_axioms;

/// The rule on ratings: one to five stars.
pub open spec fn rating_outcome(rating: int) -> Result<(), Seq<char>> {
    if rating < 1 || rating > 5 {
        Err("Rating must be between 1 and 5"@)
    } else {
        Ok(())
    }
}

/// The rule on comments: not blank, at most 1000 bytes.
pub open spec fn comment_outcome(comment: Seq<char>) -> Result<(), Seq<char>> {
    if all_whitespace(comment) {
        Err("Comment cannot be empty"@)
    } else if utf8_len(comment) > 1000 {
        Err("Comment too long"@)
    } else {
        Ok(())
    }
}

/// The review is by this user of exactly this store and product.
pub open spec fn same_item(r: UserReview, user_id: Seq<char>, store_id: Option<String>, product_id: Option<String>) -> bool {
    r.user_id@ == user_id && opt_view(r.store_id) == opt_view(store_id) && opt_view(r.product_id) == opt_view(product_id)
}

/// The characters of an optional string.
pub open spec fn opt_view(o: Option<String>) -> Option<Seq<char>> {
    match o {
        Some(s) => Some(s@),
        None => None,
    }
}

/// The first review by this user of this item, if any.
pub open spec fn existing_review(
    reviews: Seq<UserReview>,
    user_id: Seq<char>,
    store_id: Option<String>,
    product_id: Option<String>,
) -> Option<int> {
    if exists|i: int| 0 <= i < reviews.len() && same_item(#[trigger] reviews[i], user_id, store_id, product_id) {
        Some(
            choose|i: int|
                0 <= i < reviews.len() && same_item(#[trigger] reviews[i], user_id, store_id, product_id)
                    && forall|j: int| 0 <= j < i ==> !same_item(#[trigger] reviews[j], user_id, store_id, product_id),
        )
    } else {
        None
    }
}

/// Why a review is refused, if it is.
pub open spec fn submit_refusal(
    reviews: Seq<UserReview>,
    user_id: Seq<char>,
    store_id: Option<String>,
    product_id: Option<String>,
    rating: int,
    comment: Seq<char>,
) -> Option<ServiceFailure> {
    if store_id is Some && product_id is Some {
        Some(ServiceFailure::ValidationError("Cannot review both store and product in one review"@))
    } else if store_id is None && product_id is None {
        Some(ServiceFailure::ValidationError("Must review either a store or a product"@))
    } else if rating_outcome(rating) is Err {
        Some(ServiceFailure::ValidationError(rating_outcome(rating)->Err_0))
    } else if comment_outcome(comment) is Err {
        Some(ServiceFailure::ValidationError(comment_outcome(comment)->Err_0))
    } else if existing_review(reviews, user_id, store_id, product_id) is Some {
        Some(
            ServiceFailure::BusinessRuleViolation(
                "User has already reviewed this item: "@ + reviews[existing_review(
                    reviews,
                    user_id,
                    store_id,
                    product_id,
                )->Some_0].id@,
            ),
        )
    } else {
        None
    }
}

/// The message of a missing review.
pub open spec fn review_not_found(id: Seq<char>) -> ServiceFailure {
    ServiceFailure::NotFound("Review "@ + id + " not found"@)
}

/// Why an update is refused, if it is.
pub open spec fn update_refusal(
    reviews: Seq<UserReview>,
    review_id: Seq<char>,
    user_id: Seq<char>,
    rating: Option<i32>,
    comment: Option<String>,
) -> Option<ServiceFailure> {
    if rating is Some && rating_outcome(rating->Some_0 as int) is Err {
        Some(ServiceFailure::ValidationError(rating_outcome(rating->Some_0 as int)->Err_0))
    } else if comment is Some && comment_outcome(comment->Some_0@) is Err {
        Some(ServiceFailure::ValidationError(comment_outcome(comment->Some_0@)->Err_0))
    } else if !has_key(reviews, review_id) {
        Some(review_not_found(review_id))
    } else if reviews[key_index(reviews, review_id)].user_id@ != user_id {
        Some(ServiceFailure::PermissionDenied("Cannot update another user's review"@))
    } else {
        None
    }
}

/// Which reviews a query selects.
#[derive(Debug, Clone, Copy, PartialEq, Eq, Structural)]
pub enum ReviewQuery {
    Store,
    Product,
    User,
}

/// What a query selects.
pub open spec fn review_selects(q: ReviewQuery, key: Seq<char>, r: UserReview) -> bool {
    match q {
        ReviewQuery::Store => opt_view(r.store_id) == Some(key),
        ReviewQuery::Product => opt_view(r.product_id) == Some(key),
        ReviewQuery::User => r.user_id@ == key,
    }
}

/// A query as a predicate.
pub open spec fn review_pred(q: ReviewQuery, key: Seq<char>) -> spec_fn(UserReview) -> bool {
    |r: UserReview| review_selects(q, key, r)
}

/// Reviews whose lower-cased comment contains `q`.
pub open spec fn comment_hit(q: Seq<char>) -> spec_fn(UserReview) -> bool {
    |r: UserReview| contains_seq(unicode_to_lowercase(r.comment@), q)
}

/// Reviews rated from `lo` to `hi`.
pub open spec fn rated_between(lo: int, hi: int) -> spec_fn(UserReview) -> bool {
    |r: UserReview| lo <= r.rating <= hi
}

/// Reviews rated `n` stars.
pub open spec fn rated(n: int) -> spec_fn(UserReview) -> bool {
    |r: UserReview| r.rating == n
}

/// Reviews of a store.
pub open spec fn of_a_store() -> spec_fn(UserReview) -> bool {
    |r: UserReview| r.store_id is Some
}

/// Reviews of a product.
pub open spec fn of_a_product() -> spec_fn(UserReview) -> bool {
    |r: UserReview| r.product_id is Some
}

/// How many reviews give each number of stars.
#[derive(Debug, Clone, Copy)]
pub struct RatingDistribution {
    pub one_star: usize,
    pub two_star: usize,
    pub three_star: usize,
    pub four_star: usize,
    pub five_star: usize,
    pub total: usize,
}

/// The distribution of the ratings of some reviews.
pub open spec fn distribution_of(d: RatingDistribution, s: Seq<UserReview>) -> bool {
    &&& d.one_star == s.filter(rated(1)).len()
    &&& d.two_star == s.filter(rated(2)).len()
    &&& d.three_star == s.filter(rated(3)).len()
    &&& d.four_star == s.filter(rated(4)).len()
    &&& d.five_star == s.filter(rated(5)).len()
    &&& d.total == s.len()
}

/// Counts of reviews, the sum of their ratings, distinct authors and the
/// distribution of ratings.
#[derive(Debug, Clone, Copy)]
pub struct ReviewStats {
    pub total_reviews: usize,
    pub store_reviews: usize,
    pub product_reviews: usize,
    pub rating_sum: i64,
    pub unique_reviewers: usize,
    pub rating_distribution: RatingDistribution,
}

/// The stores and the products with the most reviews, with their counts.
#[derive(Debug)]
pub struct TopReviewedItems {
    pub stores: Vec<(String, usize)>,
    pub products: Vec<(String, usize)>,
}

/// Sum of the ratings.
pub open spec fn rating_total(s: Seq<UserReview>) -> int
    decreases s.len(),
{
    if s.len() == 0 {
        0
    } else {
        rating_total(s.drop_last()) + s.last().rating
    }
}

/// The ids of the reviews' authors.
pub open spec fn reviewer_keys(s: Seq<UserReview>) -> Seq<Seq<char>> {
    s.map_values(|r: UserReview| r.user_id@)
}

/// The reviewed store (`by_store`) or product of a review, empty when none.
pub open spec fn item_key(r: UserReview, by_store: bool) -> Seq<char> {
    match (if by_store {
        r.store_id
    } else {
        r.product_id
    }) {
        Some(x) => x@,
        None => Seq::empty(),
    }
}

/// The reviewed stores or products of the reviews that have one.
pub open spec fn item_keys(s: Seq<UserReview>, by_store: bool) -> Seq<Seq<char>> {
    s.filter(if by_store {
        of_a_store()
    } else {
        of_a_product()
    }).map_values(|r: UserReview| item_key(r, by_store))
}

/// For each item in `d`, the number of times it occurs in `keys`.
pub open spec fn item_counts(keys: Seq<Seq<char>>, d: Seq<Seq<char>>) -> Seq<i128> {
    d.map_values(|k: Seq<char>| keys.filter(|x: Seq<char>| x == k).len() as i128)
}

/// The times of the reviews.
pub open spec fn review_times(s: Seq<UserReview>) -> Seq<i128> {
    s.map_values(|r: UserReview| r.created_at as i128)
}

/// Reviews of stores and products, each under its own id.
pub struct ReviewService {
    reviews: Vec<UserReview>,
}

impl ReviewService {
    /// The reviews, in the order they were submitted.
    pub closed spec fn reviews(&self) -> Seq<UserReview> {
        self.reviews@
    }

    /// No two reviews share an id.
    pub open spec fn wf(&self) -> bool {
        keys_distinct(self.reviews())
    }

    /// No reviews.
    pub fn new() -> (r: Self)
        ensures
            r.wf(),
            r.reviews().len() == 0,
    {
        ReviewService { reviews: Vec::new() }
    }

    fn check_rating(rating: i32) -> (r: Result<(), ServiceError>)
        ensures
            match rating_outcome(rating as int) {
                Ok(()) => r is Ok,
                Err(m) => r matches Err(e) && service_failure_of(e) == ServiceFailure::ValidationError(m),
            },
    {
        if rating < 1 || rating > 5 {
            return Err(ServiceError::ValidationError(owned("Rating must be between 1 and 5")));
        }
        Ok(())
    }

    fn check_comment(comment: &str) -> (r: Result<(), ServiceError>)
        ensures
            match comment_outcome(comment@) {
                Ok(()) => r is Ok,
                Err(m) => r matches Err(e) && service_failure_of(e) == ServiceFailure::ValidationError(m),
            },
    {
        if is_blank(comment) {
            return Err(ServiceError::ValidationError(owned("Comment cannot be empty")));
        }
        if byte_len(comment) > 1000 {
            return Err(ServiceError::ValidationError(owned("Comment too long")));
        }
        Ok(())
    }

    fn opt_eq(a: &Option<String>, b: &Option<String>) -> (r: bool)
        ensures
            r == (opt_view(*a) == opt_view(*b)),
    {
        match (a, b) {
            (Some(x), Some(y)) => str_eq(x.as_str(), y.as_str()),
            (None, None) => true,
            _ => false,
        }
    }

    fn find_existing(&self, user_id: &str, store_id: &Option<String>, product_id: &Option<String>) -> (r: Option<usize>)
        ensures
            match r {
                None => existing_review(self.reviews(), user_id@, *store_id, *product_id) is None,
                Some(i) => existing_review(self.reviews(), user_id@, *store_id, *product_id) == Some(i as int)
                    && i < self.reviews().len(),
            },
    {
        let mut i: usize = 0;
        while i < self.reviews.len()
            invariant
                i <= self.reviews@.len(),
                forall|j: int| 0 <= j < i ==> !same_item(#[trigger] self.reviews@[j], user_id@, *store_id, *product_id),
            decreases self.reviews.len() - i,
        {
            let r = &self.reviews[i];
            if str_eq(r.user_id.as_str(), user_id) && Self::opt_eq(&r.store_id, store_id) && Self::opt_eq(
                &r.product_id,
                product_id,
            ) {
                proof {
                    let s = self.reviews@;
                    assert(same_item(s[i as int], user_id@, *store_id, *product_id));
                    let c = choose|c: int|
                        0 <= c < s.len() && same_item(#[trigger] s[c], user_id@, *store_id, *product_id)
                            && forall|j: int| 0 <= j < c ==> !same_item(#[trigger] s[j], user_id@, *store_id, *product_id);
                    if c < i {
                    } else if c > i {
                        assert(!same_item(s[i as int], user_id@, *store_id, *product_id));
                    }
                }
                return Some(i);
            }
            i = i + 1;
        }
        None
    }

    /// Record a review after checking it names one item, its rating and
    /// comment, and that the user has not reviewed that item yet.
    pub fn submit_review(
        &mut self,
        user_id: String,
        store_id: Option<String>,
        product_id: Option<String>,
        rating: i32,
        comment: String,
    ) -> (r: Result<UserReview, ServiceError>)
        requires
            old(self).wf(),
        ensures
            final(self).wf(),
            submit_refusal(old(self).reviews(), user_id@, store_id, product_id, rating as int, comment@) matches Some(f)
                ==> (r matches Err(e) && service_failure_of(e) == f && final(self).reviews() == old(self).reviews()),
            submit_refusal(old(self).reviews(), user_id@, store_id, product_id, rating as int, comment@) is None
                ==> (r matches Ok(v) && v.user_id == user_id && v.store_id == store_id && v.product_id
                == product_id && v.rating == rating && v.comment == comment && final(self).reviews()
                == put_record(old(self).reviews(), v)),
    {
        match (&store_id, &product_id) {
            (Some(_), Some(_)) => {
                return Err(
                    ServiceError::ValidationError(owned("Cannot review both store and product in one review")),
                );
            },
            (None, None) => {
                return Err(ServiceError::ValidationError(owned("Must review either a store or a product")));
            },
            _ => {},
        }
        Self::check_rating(rating)?;
        Self::check_comment(comment.as_str())?;
        match self.find_existing(user_id.as_str(), &store_id, &product_id) {
            Some(i) => {
                let mut m = owned("User has already reviewed this item: ");
                m.append(self.reviews[i].id.as_str());
                return Err(ServiceError::BusinessRuleViolation(m));
            },
            None => {},
        }
        let review = UserReview::new(user_id, store_id, product_id, rating, comment);
        put(&mut self.reviews, review.duplicate());
        Ok(review)
    }

    fn not_found(review_id: &str) -> (e: ServiceError)
        ensures
            service_failure_of(e) == review_not_found(review_id@),
    {
        let mut m = owned("Review ");
        m.append(review_id);
        m.append(" not found");
        ServiceError::NotFound(m)
    }

    /// A copy of the review with this id.
    pub fn get_review(&self, review_id: &str) -> (r: Result<UserReview, ServiceError>)
        requires
            self.wf(),
        ensures
            match lookup_key(self.reviews(), review_id@) {
                Some(v) => r == Ok::<UserReview, ServiceError>(v),
                None => r matches Err(e) && service_failure_of(e) == review_not_found(review_id@),
            },
    {
        match find_key(&self.reviews, review_id) {
            Some(i) => {
                proof {
                    lemma_key_index(self.reviews(), i as int);
                }
                Ok(self.reviews[i].duplicate())
            },
            None => Err(Self::not_found(review_id)),
        }
    }

    /// Change the rating and comment of one's own review; every given field
    /// is checked before any is applied.
    pub fn update_review(&mut self, review_id: &str, user_id: &str, rating: Option<i32>, comment: Option<String>) -> (r: Result<UserReview, ServiceError>)
        requires
            old(self).wf(),
        ensures
            final(self).wf(),
            update_refusal(old(self).reviews(), review_id@, user_id@, rating, comment) matches Some(f) ==> (r matches Err(
                e,
            ) && service_failure_of(e) == f && final(self).reviews() == old(self).reviews()),
            update_refusal(old(self).reviews(), review_id@, user_id@, rating, comment) is None ==> ({
                let i = key_index(old(self).reviews(), review_id@);
                let o = old(self).reviews()[i];
                let v = UserReview {
                    rating: match rating {
                        Some(x) => x,
                        None => o.rating,
                    },
                    comment: match comment {
                        Some(c) => c,
                        None => o.comment,
                    },
                    ..o
                };
                r == Ok::<UserReview, ServiceError>(v) && final(self).reviews() == old(self).reviews().update(i, v)
            }),
    {
        match rating {
            Some(x) => {
                Self::check_rating(x)?;
            },
            None => {},
        }
        match &comment {
            Some(c) => {
                Self::check_comment(c.as_str())?;
            },
            None => {},
        }
        let i = match find_key(&self.reviews, review_id) {
            Some(i) => i,
            None => {
                return Err(Self::not_found(review_id));
            },
        };
        if !str_eq(self.reviews[i].user_id.as_str(), user_id) {
            return Err(ServiceError::PermissionDenied(owned("Cannot update another user's review")));
        }
        let ghost before = self.reviews@;
        let mut v = self.reviews[i].duplicate();
        match rating {
            Some(x) => {
                v.rating = x;
            },
            None => {},
        }
        match comment {
            Some(c) => {
                v.comment = c;
            },
            None => {},
        }
        proof {
            lemma_update_same_key(before, i as int, v);
        }
        self.reviews.set(i, v.duplicate());
        Ok(v)
    }

    /// Remove one's own review.
    pub fn delete_review(&mut self, review_id: &str, user_id: &str) -> (r: Result<(), ServiceError>)
        requires
            old(self).wf(),
        ensures
            final(self).wf(),
            !has_key(old(self).reviews(), review_id@) ==> (r matches Err(e) && service_failure_of(e)
                == review_not_found(review_id@)),
            has_key(old(self).reviews(), review_id@) && old(self).reviews()[key_index(
                old(self).reviews(),
                review_id@,
            )].user_id@ != user_id@ ==> (r matches Err(e) && service_failure_of(e)
                == ServiceFailure::PermissionDenied("Cannot delete another user's review"@)),
            r is Err ==> final(self).reviews() == old(self).reviews(),
            has_key(old(self).reviews(), review_id@) && old(self).reviews()[key_index(
                old(self).reviews(),
                review_id@,
            )].user_id@ == user_id@ ==> r is Ok && final(self).reviews() == drop_key(old(self).reviews(), review_id@),
    {
        let i = match find_key(&self.reviews, review_id) {
            Some(i) => i,
            None => {
                return Err(Self::not_found(review_id));
            },
        };
        if !str_eq(self.reviews[i].user_id.as_str(), user_id) {
            return Err(ServiceError::PermissionDenied(owned("Cannot delete another user's review")));
        }
        let _ = take(&mut self.reviews, review_id);
        Ok(())
    }

    fn copy_selected(&self, keep: &Vec<bool>, pred: Ghost<spec_fn(UserReview) -> bool>) -> (r: Vec<UserReview>)
        requires
            keep@.len() == self.reviews@.len(),
            forall|j: int| 0 <= j < keep@.len() ==> #[trigger] keep@[j] == pred@(self.reviews@[j]),
        ensures
            r@ == self.reviews().filter(pred@),
    {
        proof {
            lemma_flagged_filter(self.reviews@, keep@, pred@);
        }
        let out = copy_flagged(&self.reviews, keep);
        assert forall|j: int| 0 <= j < out@.len() implies out@[j] == flagged(self.reviews@, keep@)[j] by {
            assert(out@[j].same(&flagged(self.reviews@, keep@)[j]));
        }
        assert(out@ =~= self.reviews().filter(pred@));
        out
    }

    fn select(&self, q: ReviewQuery, key: &str) -> (r: Vec<UserReview>)
        ensures
            r@ == self.reviews().filter(review_pred(q, key@)),
    {
        let mut keep: Vec<bool> = Vec::new();
        let mut i: usize = 0;
        while i < self.reviews.len()
            invariant
                i <= self.reviews@.len(),
                keep@.len() == i,
                forall|j: int| 0 <= j < i ==> #[trigger] keep@[j] == (review_pred(q, key@))(self.reviews@[j]),
            decreases self.reviews.len() - i,
        {
            let r = &self.reviews[i];
            let b = match q {
                ReviewQuery::Store => match &r.store_id {
                    Some(x) => str_eq(x.as_str(), key),
                    None => false,
                },
                ReviewQuery::Product => match &r.product_id {
                    Some(x) => str_eq(x.as_str(), key),
                    None => false,
                },
                ReviewQuery::User => str_eq(r.user_id.as_str(), key),
            };
            keep.push(b);
            i = i + 1;
        }
        self.copy_selected(&keep, Ghost(review_pred(q, key@)))
    }

    /// Copies of the reviews of a store.
    pub fn get_store_reviews(&self, store_id: &str) -> (r: Result<Vec<UserReview>, ServiceError>)
        ensures
            r matches Ok(v) && v@ == self.reviews().filter(review_pred(ReviewQuery::Store, store_id@)),
    {
        Ok(self.select(ReviewQuery::Store, store_id))
    }

    /// Copies of the reviews of a product.
    pub fn get_product_reviews(&self, product_id: &str) -> (r: Result<Vec<UserReview>, ServiceError>)
        ensures
            r matches Ok(v) && v@ == self.reviews().filter(review_pred(ReviewQuery::Product, product_id@)),
    {
        Ok(self.select(ReviewQuery::Product, product_id))
    }

    /// Copies of the reviews by a user.
    pub fn get_user_reviews(&self, user_id: &str) -> (r: Result<Vec<UserReview>, ServiceError>)
        ensures
            r matches Ok(v) && v@ == self.reviews().filter(review_pred(ReviewQuery::User, user_id@)),
    {
        Ok(self.select(ReviewQuery::User, user_id))
    }

    fn count_rated(s: &Vec<UserReview>, n: i32) -> (c: usize)
        ensures
            c == s@.filter(rated(n as int)).len(),
    {
        let ghost pred = rated(n as int);
        let mut c: usize = 0;
        let mut j: usize = 0;
        while j < s.len()
            invariant
                pred == rated(n as int),
                j <= s@.len(),
                c == s@.subrange(0, j as int).filter(pred).len(),
                c <= j,
            decreases s.len() - j,
        {
            proof {
                reveal(Seq::filter);
            }
            assert(s@.subrange(0, j + 1).drop_last() =~= s@.subrange(0, j as int));
            assert(s@.subrange(0, j + 1).last() == s@[j as int]);
            if s[j].rating == n {
                c = c + 1;
            }
            j = j + 1;
        }
        assert(s@.subrange(0, s@.len() as int) =~= s@);
        c
    }

    /// How many of the reviews give each number of stars.
    pub fn calculate_rating_distribution(reviews: &Vec<UserReview>) -> (d: RatingDistribution)
        ensures
            distribution_of(d, reviews@),
    {
        RatingDistribution {
            one_star: Self::count_rated(reviews, 1),
            two_star: Self::count_rated(reviews, 2),
            three_star: Self::count_rated(reviews, 3),
            four_star: Self::count_rated(reviews, 4),
            five_star: Self::count_rated(reviews, 5),
            total: reviews.len(),
        }
    }

    /// The distribution of a store's ratings.
    pub fn get_store_rating_distribution(&self, store_id: &str) -> (r: Result<RatingDistribution, ServiceError>)
        ensures
            r matches Ok(d) && distribution_of(d, self.reviews().filter(review_pred(ReviewQuery::Store, store_id@))),
    {
        let v = self.select(ReviewQuery::Store, store_id);
        Ok(Self::calculate_rating_distribution(&v))
    }

    /// The distribution of a product's ratings.
    pub fn get_product_rating_distribution(&self, product_id: &str) -> (r: Result<RatingDistribution, ServiceError>)
        ensures
            r matches Ok(d) && distribution_of(d, self.reviews().filter(review_pred(ReviewQuery::Product, product_id@))),
    {
        let v = self.select(ReviewQuery::Product, product_id);
        Ok(Self::calculate_rating_distribution(&v))
    }

    /// Copies of the reviews whose lower-cased comment contains the
    /// lower-cased query.
    pub fn search_reviews(&self, query: &str) -> (r: Result<Vec<UserReview>, ServiceError>)
        ensures
            r matches Ok(v) && v@ == self.reviews().filter(comment_hit(unicode_to_lowercase(query@))),
    {
        let q = to_lowercase(query);
        let mut keep: Vec<bool> = Vec::new();
        let mut i: usize = 0;
        while i < self.reviews.len()
            invariant
                q@ == unicode_to_lowercase(query@),
                i <= self.reviews@.len(),
                keep@.len() == i,
                forall|j: int| 0 <= j < i ==> #[trigger] keep@[j] == (comment_hit(q@))(self.reviews@[j]),
            decreases self.reviews.len() - i,
        {
            let c = to_lowercase(self.reviews[i].comment.as_str());
            keep.push(str_contains(c.as_str(), q.as_str()));
            i = i + 1;
        }
        Ok(self.copy_selected(&keep, Ghost(comment_hit(q@))))
    }

    /// Copies of the reviews rated from `min_rating` to `max_rating`, which
    /// must be a range within one to five.
    pub fn get_reviews_by_rating_range(&self, min_rating: i32, max_rating: i32) -> (r: Result<Vec<UserReview>, ServiceError>)
        ensures
            (min_rating < 1 || max_rating > 5 || min_rating > max_rating) ==> (r matches Err(e)
                && service_failure_of(e) == ServiceFailure::ValidationError("Invalid rating range"@)),
            !(min_rating < 1 || max_rating > 5 || min_rating > max_rating) ==> (r matches Ok(v) && v@
                == self.reviews().filter(rated_between(min_rating as int, max_rating as int))),
    {
        if min_rating < 1 || max_rating > 5 || min_rating > max_rating {
            return Err(ServiceError::ValidationError(owned("Invalid rating range")));
        }
        let mut keep: Vec<bool> = Vec::new();
        let mut i: usize = 0;
        while i < self.reviews.len()
            invariant
                i <= self.reviews@.len(),
                keep@.len() == i,
                forall|j: int| 0 <= j < i ==> #[trigger] keep@[j] == (rated_between(min_rating as int, max_rating as int))(self.reviews@[j]),
            decreases self.reviews.len() - i,
        {
            let x = self.reviews[i].rating;
            keep.push(x >= min_rating && x <= max_rating);
            i = i + 1;
        }
        Ok(self.copy_selected(&keep, Ghost(rated_between(min_rating as int, max_rating as int))))
    }
}

/// The keys equal to `k`.
pub open spec fn equals_key(k: Seq<char>) -> spec_fn(Seq<char>) -> bool {
    |x: Seq<char>| x == k
}

/// Where a page from `offset` of `limit` items ends, capped at the
/// largest machine index.
pub open spec fn page_end(offset: int, limit: int) -> int {
    if offset + limit > usize::MAX {
        usize::MAX as int
    } else {
        offset + limit
    }
}

/// The page of `order` from `offset`, as reviews.
pub open spec fn page_of(reviews: Seq<UserReview>, order: Seq<usize>, offset: int) -> Seq<UserReview> {
    let start = if offset < order.len() {
        offset
    } else {
        order.len() as int
    };
    order.subrange(start, order.len() as int).map_values(|i: usize| reviews[i as int])
}

/// A list of items with counts, by their values.
pub open spec fn counted_view(v: Seq<(String, usize)>) -> Seq<(Seq<char>, int)> {
    v.map_values(|e: (String, usize)| (e.0@, e.1 as int))
}

/// The items of `d` at the positions `order`, with their counts.
pub open spec fn ranked_items(d: Seq<Seq<char>>, counts: Seq<i128>, order: Seq<usize>) -> Seq<(Seq<char>, int)> {
    order.map_values(|i: usize| (d[i as int], counts[i as int] as int))
}

impl ReviewService {
    /// Reviews from the newest, skipping `offset` and taking at most
    /// `limit`; submission order among equal times.
    pub fn get_recent_reviews(&self, offset: usize, limit: usize) -> (r: Result<Vec<UserReview>, ServiceError>)
        ensures
            r matches Ok(v) && exists|order: Seq<usize>|
                #[trigger] ranked_top(review_times(self.reviews()), page_end(offset as int, limit as int), order)
                    && v@ == page_of(self.reviews(), order, offset as int),
    {
        let mut times: Vec<i128> = Vec::new();
        let mut i: usize = 0;
        while i < self.reviews.len()
            invariant
                i <= self.reviews@.len(),
                times@ == review_times(self.reviews@).subrange(0, i as int),
            decreases self.reviews.len() - i,
        {
            times.push(self.reviews[i].created_at as i128);
            assert(times@ =~= review_times(self.reviews@).subrange(0, i + 1));
            i = i + 1;
        }
        assert(times@ =~= review_times(self.reviews@));
        let cap: usize = if offset > usize::MAX - limit {
            usize::MAX
        } else {
            offset + limit
        };
        let order = rank_by_count(&times, cap);
        let start: usize = if offset < order.len() {
            offset
        } else {
            order.len()
        };
        let mut out: Vec<UserReview> = Vec::new();
        let mut k: usize = start;
        while k < order.len()
            invariant
                ranked_top(times@, cap as int, order@),
                times@.len() == self.reviews@.len(),
                start <= k <= order@.len(),
                out@ == order@.subrange(start as int, k as int).map_values(|i: usize| self.reviews@[i as int]),
            decreases order.len() - k,
        {
            assert(order@[k as int] < times@.len());
            out.push(self.reviews[order[k]].duplicate());
            assert(out@ =~= order@.subrange(start as int, k + 1).map_values(|i: usize| self.reviews@[i as int]));
            k = k + 1;
        }
        assert(cap as int == page_end(offset as int, limit as int));
        assert(ranked_top(review_times(self.reviews()), page_end(offset as int, limit as int), order@));
        assert(out@ == page_of(self.reviews(), order@, offset as int));
        Ok(out)
    }

    fn count_where(&self, which: u8) -> (c: usize)
        ensures
            c == self.reviews().filter(if which == 0 {
                of_a_store()
            } else {
                of_a_product()
            }).len(),
    {
        let ghost pred = if which == 0 {
            of_a_store()
        } else {
            of_a_product()
        };
        let s = &self.reviews;
        let mut c: usize = 0;
        let mut j: usize = 0;
        while j < s.len()
            invariant
                pred == (if which == 0 {
                    of_a_store()
                } else {
                    of_a_product()
                }),
                j <= s@.len(),
                c == s@.subrange(0, j as int).filter(pred).len(),
                c <= j,
            decreases s.len() - j,
        {
            proof {
                reveal(Seq::filter);
            }
            assert(s@.subrange(0, j + 1).drop_last() =~= s@.subrange(0, j as int));
            assert(s@.subrange(0, j + 1).last() == s@[j as int]);
            let hit = if which == 0 {
                s[j].store_id.is_some()
            } else {
                s[j].product_id.is_some()
            };
            if hit {
                c = c + 1;
            }
            j = j + 1;
        }
        assert(s@.subrange(0, s@.len() as int) =~= s@);
        c
    }

    /// Counts of all reviews, of store and of product reviews, the sum of
    /// the ratings, the number of distinct authors and the rating distribution.
    pub fn get_review_stats(&self) -> (r: Result<ReviewStats, ServiceError>)
        requires
            i64::MIN <= rating_total(self.reviews()) <= i64::MAX,
        ensures
            r matches Ok(st) && st.total_reviews == self.reviews().len() && st.store_reviews
                == self.reviews().filter(of_a_store()).len() && st.product_reviews == self.reviews().filter(
                of_a_product(),
            ).len() && st.rating_sum == rating_total(self.reviews()) && st.unique_reviewers
                == first_appearances(reviewer_keys(self.reviews())).len() && distribution_of(
                st.rating_distribution,
                self.reviews(),
            ),
    {
        let mut sum: i128 = 0;
        let mut i: usize = 0;
        while i < self.reviews.len()
            invariant
                i <= self.reviews@.len(),
                sum == rating_total(self.reviews@.subrange(0, i as int)),
                -0x8000_0000 * i <= sum <= 0x8000_0000 * i,
            decreases self.reviews.len() - i,
        {
            assert(self.reviews@.subrange(0, i + 1).drop_last() =~= self.reviews@.subrange(0, i as int));
            sum = sum + self.reviews[i].rating as i128;
            i = i + 1;
        }
        assert(self.reviews@.subrange(0, self.reviews@.len() as int) =~= self.reviews@);
        let mut users: Vec<String> = Vec::new();
        let mut k: usize = 0;
        while k < self.reviews.len()
            invariant
                k <= self.reviews@.len(),
                users@.len() == k,
                forall|j: int| 0 <= j < k ==> (#[trigger] users@[j])@ == self.reviews@[j].user_id@,
            decreases self.reviews.len() - k,
        {
            users.push(self.reviews[k].user_id.clone());
            k = k + 1;
        }
        assert(views_of(users@) =~= reviewer_keys(self.reviews@));
        let reviewers = distinct_strings(&users);
        Ok(
            ReviewStats {
                total_reviews: self.reviews.len(),
                store_reviews: self.count_where(0),
                product_reviews: self.count_where(1),
                rating_sum: sum as i64,
                unique_reviewers: reviewers.len(),
                rating_distribution: Self::calculate_rating_distribution(&self.reviews),
            },
        )
    }

    fn item_list(&self, by_store: bool) -> (r: Vec<String>)
        ensures
            views_of(r@) == item_keys(self.reviews(), by_store),
    {
        let ghost pred = if by_store {
            of_a_store()
        } else {
            of_a_product()
        };
        let mut out: Vec<String> = Vec::new();
        let mut i: usize = 0;
        while i < self.reviews.len()
            invariant
                pred == (if by_store {
                    of_a_store()
                } else {
                    of_a_product()
                }),
                i <= self.reviews@.len(),
                views_of(out@) == self.reviews@.subrange(0, i as int).filter(pred).map_values(
                    |r: UserReview| item_key(r, by_store),
                ),
            decreases self.reviews.len() - i,
        {
            proof {
                reveal(Seq::filter);
            }
            assert(self.reviews@.subrange(0, i + 1).drop_last() =~= self.reviews@.subrange(0, i as int));
            assert(self.reviews@.subrange(0, i + 1).last() == self.reviews@[i as int]);
            let ghost before = out@;
            let item = if by_store {
                &self.reviews[i].store_id
            } else {
                &self.reviews[i].product_id
            };
            match item {
                Some(x) => {
                    out.push(x.clone());
                    assert(views_of(out@) =~= views_of(before).push(item_key(self.reviews@[i as int], by_store)));
                    assert(self.reviews@.subrange(0, i + 1).filter(pred).map_values(|r: UserReview| item_key(r, by_store))
                        =~= self.reviews@.subrange(0, i as int).filter(pred).map_values(
                        |r: UserReview| item_key(r, by_store),
                    ).push(item_key(self.reviews@[i as int], by_store)));
                },
                None => {},
            }
            i = i + 1;
        }
        assert(self.reviews@.subrange(0, self.reviews@.len() as int) =~= self.reviews@);
        out
    }

    fn occurrences(keys: &Vec<String>, k: &str) -> (c: usize)
        ensures
            c == views_of(keys@).filter(equals_key(k@)).len(),
    {
        let ghost v = views_of(keys@);
        let mut c: usize = 0;
        let mut j: usize = 0;
        while j < keys.len()
            invariant
                v == views_of(keys@),
                j <= keys@.len(),
                c == v.subrange(0, j as int).filter(equals_key(k@)).len(),
                c <= j,
            decreases keys.len() - j,
        {
            proof {
                reveal(Seq::filter);
            }
            assert(v.subrange(0, j + 1).drop_last() =~= v.subrange(0, j as int));
            assert(v.subrange(0, j + 1).last() == keys@[j as int]@);
            if str_eq(keys[j].as_str(), k) {
                c = c + 1;
            }
            j = j + 1;
        }
        assert(v.subrange(0, v.len() as int) =~= v);
        c
    }

    fn top_items(&self, by_store: bool, limit: usize) -> (r: Vec<(String, usize)>)
        ensures
            ({
                let keys = item_keys(self.reviews(), by_store);
                let d = first_appearances(keys);
                exists|order: Seq<usize>|
                    #[trigger] ranked_top(item_counts(keys, d), limit as int, order) && counted_view(r@)
                        == ranked_items(d, item_counts(keys, d), order)
            }),
    {
        let keys = self.item_list(by_store);
        let d = distinct_strings(&keys);
        let ghost kv = views_of(keys@);
        let ghost dv = views_of(d@);
        let mut counts: Vec<i128> = Vec::new();
        let mut lens: Vec<usize> = Vec::new();
        let mut k: usize = 0;
        while k < d.len()
            invariant
                kv == views_of(keys@),
                dv == views_of(d@),
                k <= d@.len(),
                counts@ == item_counts(kv, dv).subrange(0, k as int),
                lens@.len() == k,
                forall|j: int| 0 <= j < k ==> #[trigger] lens@[j] as int == counts@[j] as int,
            decreases d.len() - k,
        {
            assert(d@[k as int]@ == dv[k as int]);
            let c = Self::occurrences(&keys, d[k].as_str());
            counts.push(c as i128);
            lens.push(c);
            assert(counts@ =~= item_counts(kv, dv).subrange(0, k + 1));
            k = k + 1;
        }
        assert(counts@ =~= item_counts(kv, dv));
        let order = rank_by_count(&counts, limit);
        let mut out: Vec<(String, usize)> = Vec::new();
        let mut m: usize = 0;
        while m < order.len()
            invariant
                ranked_top(counts@, limit as int, order@),
                counts@.len() == d@.len(),
                lens@.len() == d@.len(),
                dv == views_of(d@),
                forall|j: int| 0 <= j < d@.len() ==> #[trigger] lens@[j] as int == counts@[j] as int,
                m <= order@.len(),
                out@.len() == m,
                forall|j: int| 0 <= j < m ==> (#[trigger] out@[j]).0@ == dv[order@[j] as int] && out@[j].1 as int
                    == counts@[order@[j] as int] as int,
            decreases order.len() - m,
        {
            let x = order[m];
            assert(order@[m as int] < counts@.len());
            assert(d@[x as int]@ == dv[x as int]);
            assert(lens@[x as int] as int == counts@[x as int] as int);
            out.push((d[x].clone(), lens[x]));
            m = m + 1;
        }
        assert(counted_view(out@) =~= ranked_items(dv, counts@, order@));
        assert(ranked_top(item_counts(kv, dv), limit as int, order@));
        out
    }

    /// The stores and the products with the most reviews, at most `limit`
    /// of each, most first; the order they first appear among the reviews
    /// breaks ties.
    pub fn get_top_reviewed_items(&self, limit: usize) -> (r: Result<TopReviewedItems, ServiceError>)
        ensures
            r matches Ok(t) && ({
                let sk = item_keys(self.reviews(), true);
                let sd = first_appearances(sk);
                let pk = item_keys(self.reviews(), false);
                let pd = first_appearances(pk);
                &&& exists|order: Seq<usize>|
                    #[trigger] ranked_top(item_counts(sk, sd), limit as int, order) && counted_view(t.stores@)
                        == ranked_items(sd, item_counts(sk, sd), order)
                &&& exists|order: Seq<usize>|
                    #[trigger] ranked_top(item_counts(pk, pd), limit as int, order) && counted_view(t.products@)
                        == ranked_items(pd, item_counts(pk, pd), order)
            }),
    {
        Ok(TopReviewedItems { stores: self.top_items(true, limit), products: self.top_items(false, limit) })
    }
}

impl Default for ReviewService {
    fn default() -> (r: Self)
        ensures
            r.wf(),
            r.reviews().len() == 0,
    {
        Self::new()
    }
}

/// The star counts of a distribution add up to its total when every
/// rating lies between one and five stars (as the review rules require of
/// every review they accept).
pub proof fn law_distribution_adds_up(d: RatingDistribution, s: Seq<UserReview>)
    requires
        distribution_of(d, s),
        forall|i: int| 0 <= i < s.len() ==> 1 <= #[trigger] s[i].rating <= 5,
    ensures
        d.one_star + d.two_star + d.three_star + d.four_star + d.five_star == d.total,
{
    lemma_star_counts(s);
}

/// Each star count of a distribution is the number of reviews rated exactly
/// that many stars.
pub proof fn law_distribution_counts_each_rating(d: RatingDistribution, s: Seq<UserReview>)
    requires
        distribution_of(d, s),
    ensures
        d.one_star == s.filter(|r: UserReview| r.rating == 1).len(),
        d.two_star == s.filter(|r: UserReview| r.rating == 2).len(),
        d.three_star == s.filter(|r: UserReview| r.rating == 3).len(),
        d.four_star == s.filter(|r: UserReview| r.rating == 4).len(),
        d.five_star == s.filter(|r: UserReview| r.rating == 5).len(),
        d.total == s.len(),
{
    assert(rated(1) =~= |r: UserReview| r.rating == 1);
    assert(rated(2) =~= |r: UserReview| r.rating == 2);
    assert(rated(3) =~= |r: UserReview| r.rating == 3);
    assert(rated(4) =~= |r: UserReview| r.rating == 4);
    assert(rated(5) =~= |r: UserReview| r.rating == 5);
}

/// Counting one review more: the count of its rating grows by one, the
/// other counts stay, and the total grows by one.
pub proof fn law_distribution_of_one_more(d1: RatingDistribution, d2: RatingDistribution, s: Seq<UserReview>, x: UserReview)
    requires
        distribution_of(d1, s),
        distribution_of(d2, s.push(x)),
    ensures
        d2.one_star == d1.one_star + if x.rating == 1 { 1int } else { 0int },
        d2.two_star == d1.two_star + if x.rating == 2 { 1int } else { 0int },
        d2.three_star == d1.three_star + if x.rating == 3 { 1int } else { 0int },
        d2.four_star == d1.four_star + if x.rating == 4 { 1int } else { 0int },
        d2.five_star == d1.five_star + if x.rating == 5 { 1int } else { 0int },
        d2.total == d1.total + 1,
{
    reveal(Seq::filter);
    assert(s.push(x).drop_last() =~= s);
    assert(s.push(x).last() == x);
}

/// The five star counts of reviews rated one to five stars add up to their
/// number.
proof fn lemma_star_counts(s: Seq<UserReview>)
    requires
        forall|i: int| 0 <= i < s.len() ==> 1 <= #[trigger] s[i].rating <= 5,
    ensures
        s.filter(rated(1)).len() + s.filter(rated(2)).len() + s.filter(rated(3)).len() + s.filter(rated(4)).len()
            + s.filter(rated(5)).len() == s.len(),
    decreases s.len(),
{
    reveal(Seq::filter);
    if s.len() > 0 {
        let t = s.drop_last();
        assert forall|i: int| 0 <= i < t.len() implies 1 <= #[trigger] t[i].rating <= 5 by {
            assert(t[i] == s[i]);
        }
        lemma_star_counts(t);
        assert(1 <= s[s.len() - 1].rating <= 5);
    }
}

} // verus!
