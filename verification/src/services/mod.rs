//! In-memory services over accounts, products, prices, stores and reviews.
pub mod price_service;
pub mod product_service;
pub mod review_service;
pub mod store_service;
pub mod user_service;

pub use price_service::PriceService;
pub use product_service::ProductService;
pub use review_service::ReviewService;
pub use store_service::StoreService;
pub use user_service::UserService;

use vstd::prelude::*;
use crate::text::owned;

verus! {

broadcast use vstd::string::group_string_axioms;

/// Why a service operation failed.
#[derive(Debug)]
pub enum ServiceError {
    DatabaseError(String),
    ValidationError(String),
    NotFound(String),
    PermissionDenied(String),
    BusinessRuleViolation(String),
    ExternalServiceError(String),
}

/// A `ServiceError` with its message taken by its characters.
pub enum ServiceFailure {
    DatabaseError(Seq<char>),
    ValidationError(Seq<char>),
    NotFound(Seq<char>),
    PermissionDenied(Seq<char>),
    BusinessRuleViolation(Seq<char>),
    ExternalServiceError(Seq<char>),
}

/// The failure a `ServiceError` stands for.
pub open spec fn service_failure_of(e: ServiceError) -> ServiceFailure {
    match e {
        ServiceError::DatabaseError(m) => ServiceFailure::DatabaseError(m@),
        ServiceError::ValidationError(m) => ServiceFailure::ValidationError(m@),
        ServiceError::NotFound(m) => ServiceFailure::NotFound(m@),
        ServiceError::PermissionDenied(m) => ServiceFailure::PermissionDenied(m@),
        ServiceError::BusinessRuleViolation(m) => ServiceFailure::BusinessRuleViolation(m@),
        ServiceError::ExternalServiceError(m) => ServiceFailure::ExternalServiceError(m@),
    }
}

impl ServiceError {
    /// The displayed text of the error.
    pub fn message(&self) -> (r: String)
        ensures
            self matches ServiceError::DatabaseError(m) ==> r@ == "Database error: "@ + m@,
            self matches ServiceError::ValidationError(m) ==> r@ == "Validation error: "@ + m@,
            self matches ServiceError::NotFound(m) ==> r@ == "Not found: "@ + m@,
            self matches ServiceError::PermissionDenied(m) ==> r@ == "Permission denied: "@ + m@,
            self matches ServiceError::BusinessRuleViolation(m) ==> r@ == "Business rule violation: "@
                + m@,
            self matches ServiceError::ExternalServiceError(m) ==> r@ == "External service error: "@
                + m@,
    {
        let (prefix, m) = match self {
            ServiceError::DatabaseError(m) => ("Database error: ", m),
            ServiceError::ValidationError(m) => ("Validation error: ", m),
            ServiceError::NotFound(m) => ("Not found: ", m),
            ServiceError::PermissionDenied(m) => ("Permission denied: ", m),
            ServiceError::BusinessRuleViolation(m) => ("Business rule violation: ", m),
            ServiceError::ExternalServiceError(m) => ("External service error: ", m),
        };
        let mut s = owned(prefix);
        s.append(m.as_str());
        s
    }
}

/// All services of the application.
pub struct AppServices {
    pub user_service: UserService,
    pub product_service: ProductService,
    pub store_service: StoreService,
    pub price_service: PriceService,
    pub review_service: ReviewService,
}

impl AppServices {
    /// Each service as it starts: no users, products, prices or reviews;
    /// the sample stores.
    pub fn new() -> (r: Self)
        ensures
            r.user_service.wf() && r.user_service.users().len() == 0,
            r.user_service.sessions().len() == 0,
            r.product_service.wf() && r.product_service.products().len() == 0,
            r.product_service.categories() == crate::services::product_service::default_categories(),
            r.store_service.wf() && 1 <= r.store_service.stores().len() <= 3,
            forall|i: int|
                0 <= i < r.store_service.stores().len() ==> crate::services::store_service::sample_store_ok(
                    #[trigger] r.store_service.stores()[i],
                ),
            r.price_service.wf() && r.price_service.records().len() == 0,
            r.review_service.wf() && r.review_service.reviews().len() == 0,
    {
        AppServices {
            user_service: UserService::new(),
            product_service: ProductService::new(),
            store_service: StoreService::new(),
            price_service: PriceService::new(),
            review_service: ReviewService::new(),
        }
    }
}

impl Default for AppServices {
    fn default() -> (r: Self)
        ensures
            r.user_service.wf() && r.user_service.users().len() == 0,
            r.product_service.wf() && r.product_service.products().len() == 0,
            r.store_service.wf() && 1 <= r.store_service.stores().len() <= 3,
            r.price_service.wf() && r.price_service.records().len() == 0,
            r.review_service.wf() && r.review_service.reviews().len() == 0,
    {
        Self::new()
    }
}

} // verus!
