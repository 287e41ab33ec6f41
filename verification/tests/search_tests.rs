use eprice::models::Product;
use eprice::search::engine::{tokenize, SearchEngine, SearchQuery};
use eprice::search::filters::{
    AvailabilityFilter, PriceRange, RatingFilter, SearchFilters, SortDirection, SortField, TimeRange,
};

fn product(name: &str, category: &str, description: &str, tags: &[&str]) -> Product {
    Product::new(
        name.to_string(),
        category.to_string(),
        description.to_string(),
        None,
        Vec::new(),
        tags.iter().map(|t| t.to_string()).collect(),
    )
}

fn engine() -> (SearchEngine, String, String) {
    let p1 = product("Fresh Milk", "Dairy", "Whole milk", &["milk"]);
    let p2 = product("Milk Tea", "Drinks", "Sweet drink", &["tea"]);
    let (id1, id2) = (p1.id.clone(), p2.id.clone());
    let mut e = SearchEngine::new();
    assert!(e.build_indices(&[p1, p2], &[]).is_ok());
    (e, id1, id2)
}

fn query(text: &str, min: u64) -> SearchQuery {
    SearchQuery { text: text.to_string(), min_relevance_score: min, ..SearchQuery::default() }
}

#[test]
fn tokens_are_lower_cased_words_longer_than_one_byte() {
    assert_eq!(tokenize("Hello,  World a B"), vec!["hello,".to_string(), "world".to_string()]);
    assert!(tokenize("").is_empty());
}

#[test]
fn search_scores_each_filing() {
    let (e, id1, id2) = engine();
    let r = e.search_fresh(query("MILK", 10), 0, 7);
    let ids: Vec<&str> = r.items.iter().map(|i| i.product.id.as_str()).collect();
    assert_eq!(ids, vec![id1.as_str(), id2.as_str()]);
    assert_eq!(r.items[0].relevance_score, 200);
    assert_eq!(r.items[1].relevance_score, 100);
    assert_eq!(r.items[0].product.name, format!("Product {}", id1));
    assert_eq!(r.total_count, 2);
    assert_eq!(r.search_time_ms, 7);
    assert_eq!(r.suggestions, vec!["MILK in Test Category".to_string(); 2]);
    assert_eq!(r.facets.categories.len(), 1);
    assert_eq!(r.facets.categories[0].name, "Test Category");
    assert_eq!(r.facets.categories[0].count, 2);
    let r = e.search_fresh(query("tea", 150), 0, 0);
    assert!(r.items.is_empty());
    assert!(r.suggestions.is_empty());
    assert!(r.facets.categories.is_empty());
    let r = e.search_fresh(query("sweet tea", 10), 0, 0);
    assert_eq!(r.items.len(), 1);
    assert_eq!(r.items[0].relevance_score, 200);
}

#[test]
fn search_respects_maximum_and_ascending_order() {
    let (e, id1, id2) = engine();
    let mut q = query("milk", 10);
    q.max_results = 1;
    let r = e.search_fresh(q, 0, 0);
    assert_eq!(r.items.len(), 1);
    assert_eq!(r.items[0].product.id, id1);
    let mut q = query("milk", 10);
    q.filters.set_sort(SortField::Relevance, SortDirection::Ascending);
    let r = e.search_fresh(q, 0, 0);
    assert_eq!(r.items[0].product.id, id2);
}

#[test]
fn cached_search_gives_same_items() {
    let (mut e, _, _) = engine();
    let a = e.search(query("milk", 10)).unwrap();
    let b = e.search(query("milk", 10)).unwrap();
    assert_eq!(a.total_count, 2);
    assert_eq!(b.total_count, 2);
    // The second answer is the stored one, time of search included.
    assert_eq!(a.search_time_ms, b.search_time_ms);
    let ids_a: Vec<String> = a.items.iter().map(|i| i.product.id.clone()).collect();
    let ids_b: Vec<String> = b.items.iter().map(|i| i.product.id.clone()).collect();
    assert_eq!(ids_a, ids_b);
    // Another query is cached apart and does not disturb the first.
    let c = e.search(query("tea", 10)).unwrap();
    let d = e.search(query("milk", 10)).unwrap();
    assert_ne!(c.total_count, 2);
    assert_eq!(d.total_count, 2);
    assert_eq!(d.search_time_ms, a.search_time_ms);
}

#[test]
fn suggestions_are_sorted_prefix_matches() {
    let (e, _, _) = engine();
    assert_eq!(e.get_suggestions("MI", 5), vec!["milk".to_string()]);
    assert_eq!(
        e.get_suggestions("", 3),
        vec!["dairy".to_string(), "drink".to_string(), "drinks".to_string()]
    );
    assert!(e.get_suggestions("zz", 3).is_empty());
    assert_eq!(e.get_trending_searches(2), vec!["可口可乐".to_string(), "iPhone".to_string()]);
    assert_eq!(e.get_trending_searches(10).len(), 5);
}

#[test]
fn filter_settings_and_checks() {
    let mut f = SearchFilters::default();
    assert!(f.is_empty());
    assert!(f.validate().is_ok());
    f.add_category("c1".to_string(), "Dairy".to_string(), true);
    assert_eq!(f.categories[0].weight, 100);
    f.add_tags(vec!["a".to_string(), "b".to_string()]);
    assert_eq!(f.tags.len(), 2);
    f.set_availability(AvailabilityFilter::InStock);
    assert!(!f.is_empty());
    f.reset();
    assert!(f.is_empty());
    let bad = SearchFilters::with_price_range(Some(500), Some(100));
    assert_eq!(
        bad.validate(),
        Err("Minimum price cannot be greater than maximum price".to_string())
    );
    let neg = SearchFilters::with_price_range(Some(-5), Some(100));
    assert_eq!(neg.validate(), Err("Prices cannot be negative".to_string()));
    let mut r = SearchFilters::default();
    r.rating_filter = Some(RatingFilter { min_rating: 501, min_review_count: None, verified_reviews_only: false });
    assert_eq!(r.validate(), Err("Rating must be between 0 and 5".to_string()));
    let mut t = SearchFilters::default();
    t.time_range = Some(TimeRange { start_date: Some(10), end_date: Some(5), last_updated_hours: None });
    assert_eq!(t.validate(), Err("Start date cannot be after end date".to_string()));
    let pr = PriceRange::default();
    assert_eq!(pr.currency, "CNY");
}
