//! Product search: filter settings and the search engine.
pub mod engine;
pub mod filters;

pub use engine::{SearchEngine, SearchQuery, SearchResult, SearchResultItem};
pub use filters::{CategoryFilter, PriceRange, SearchFilters, StoreFilter};
