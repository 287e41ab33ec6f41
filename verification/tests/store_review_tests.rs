use eprice::services::review_service::ReviewService;
use eprice::services::store_service::StoreService;
use eprice::services::ServiceError;

fn new_store(svc: &mut StoreService, name: &str, lat: i64, lon: i64, tags: &[&str]) -> String {
    svc.create_store(
        name.to_string(),
        "1 Test Street".to_string(),
        lat,
        lon,
        "9-17".to_string(),
        "0312345678".to_string(),
        tags.iter().map(|t| t.to_string()).collect(),
        'S',
    )
    .unwrap()
    .id
}

fn validation_message<T: std::fmt::Debug>(r: Result<T, ServiceError>) -> String {
    match r {
        Err(ServiceError::ValidationError(m)) => m,
        other => panic!("unexpected {:?}", other),
    }
}

#[test]
fn sample_stores_are_present() {
    let svc = StoreService::new();
    let all = svc.list_stores(0, 10).unwrap();
    assert_eq!(all.len(), 3);
    assert_eq!(all[0].name, "FamilyMart Tokyo Station");
    assert_eq!(all[0].rating, 460);
    assert_eq!(svc.get_stores_by_tag("24h").unwrap().len(), 2);
    assert_eq!(svc.search_stores("SHIBUYA").unwrap().len(), 1);
    assert_eq!(svc.list_stores(2, 10).unwrap().len(), 1);
    assert_eq!(svc.list_stores(5, 10).unwrap().len(), 0);
}

#[test]
fn store_checks() {
    let mut svc = StoreService::new();
    let mk = |svc: &mut StoreService, name: &str, addr: &str, lat: i64, lon: i64, phone: &str| {
        svc.create_store(
            name.to_string(),
            addr.to_string(),
            lat,
            lon,
            String::new(),
            phone.to_string(),
            vec![],
            'x',
        )
    };
    assert_eq!(validation_message(mk(&mut svc, " ", "a", 0, 0, "0123456789")), "Store name cannot be empty");
    assert_eq!(
        validation_message(mk(&mut svc, &"n".repeat(201), "a", 0, 0, "0123456789")),
        "Store name too long"
    );
    assert_eq!(validation_message(mk(&mut svc, "n", "", 0, 0, "0123456789")), "Address cannot be empty");
    assert_eq!(validation_message(mk(&mut svc, "n", "a", 90_000_001, 0, "0123456789")), "Invalid latitude");
    assert_eq!(validation_message(mk(&mut svc, "n", "a", 0, -180_000_001, "0123456789")), "Invalid longitude");
    assert_eq!(validation_message(mk(&mut svc, "n", "a", 0, 0, "")), "Phone cannot be empty");
    assert_eq!(validation_message(mk(&mut svc, "n", "a", 0, 0, "12345")), "Invalid phone number format");
    assert!(mk(&mut svc, "n", "a", 90_000_000, 180_000_000, "0123456789").is_ok());
}

#[test]
fn store_life_cycle() {
    let mut svc = StoreService::new();
    let id = new_store(&mut svc, "Corner Shop", 1_000_000, 2_000_000, &["local"]);
    assert_eq!(svc.get_store(&id).unwrap().name, "Corner Shop");
    let up = svc
        .update_store(&id, Some("Corner Shop 2".to_string()), None, None, None, None, None, None)
        .unwrap();
    assert_eq!(up.name, "Corner Shop 2");
    assert_eq!(svc.get_store(&id).unwrap().name, "Corner Shop 2");
    assert_eq!(svc.update_store_rating(&id, 480).unwrap(), 480);
    assert_eq!(
        validation_message(svc.update_store_rating(&id, 501)),
        "Rating must be between 0 and 5"
    );
    let inside = svc.get_stores_in_bounds(1_500_000, 500_000, 2_500_000, 1_500_000).unwrap();
    assert_eq!(inside.len(), 1);
    assert_eq!(inside[0].id, id);
    assert!(svc.delete_store(&id).is_ok());
    match svc.get_store(&id) {
        Err(ServiceError::NotFound(m)) => assert_eq!(m, format!("Store {} not found", id)),
        other => panic!("unexpected {:?}", other),
    }
    assert!(svc.delete_store(&id).is_err());
}

#[test]
fn store_statistics() {
    let mut svc = StoreService::new();
    let a = new_store(&mut svc, "A", 0, 0, &["x", "y"]);
    let b = new_store(&mut svc, "B", 0, 0, &["x"]);
    svc.update_store_rating(&a, 300).unwrap();
    svc.update_store_rating(&b, 100).unwrap();
    let st = svc.get_store_stats().unwrap();
    assert_eq!(st.total_stores, 5);
    assert_eq!(st.rating_sum, 460 * 3 + 400);
    let tags: Vec<(String, usize)> = st.tag_counts.clone();
    assert!(tags.contains(&("24h".to_string(), 2)));
    assert!(tags.contains(&("x".to_string(), 2)));
    assert!(tags.contains(&("y".to_string(), 1)));
    let bands: Vec<(String, usize)> = st.stores_by_rating.clone();
    assert!(bands.contains(&("excellent".to_string(), 3)));
    assert!(bands.contains(&("average".to_string(), 1)));
    assert!(bands.contains(&("below_average".to_string(), 1)));
}

#[test]
fn review_rules() {
    let mut svc = ReviewService::new();
    let s = Some("s1".to_string());
    let p = Some("p1".to_string());
    assert_eq!(
        validation_message(svc.submit_review("u".to_string(), s.clone(), p.clone(), 3, "ok".to_string())),
        "Cannot review both store and product in one review"
    );
    assert_eq!(
        validation_message(svc.submit_review("u".to_string(), None, None, 3, "ok".to_string())),
        "Must review either a store or a product"
    );
    assert_eq!(
        validation_message(svc.submit_review("u".to_string(), s.clone(), None, 6, "ok".to_string())),
        "Rating must be between 1 and 5"
    );
    assert_eq!(
        validation_message(svc.submit_review("u".to_string(), s.clone(), None, 3, "  ".to_string())),
        "Comment cannot be empty"
    );
    let r = svc.submit_review("u".to_string(), s.clone(), None, 4, "Nice shop".to_string()).unwrap();
    match svc.submit_review("u".to_string(), s.clone(), None, 2, "again".to_string()) {
        Err(ServiceError::BusinessRuleViolation(m)) => {
            assert_eq!(m, format!("User has already reviewed this item: {}", r.id))
        }
        other => panic!("unexpected {:?}", other),
    }
    match svc.update_review(&r.id, "someone else", Some(1), None) {
        Err(ServiceError::PermissionDenied(m)) => assert_eq!(m, "Cannot update another user's review"),
        other => panic!("unexpected {:?}", other),
    }
    let up = svc.update_review(&r.id, "u", Some(5), None).unwrap();
    assert_eq!(up.rating, 5);
    assert_eq!(up.comment, "Nice shop");
    assert_eq!(svc.get_review(&r.id).unwrap().rating, 5);
    assert!(svc.delete_review(&r.id, "other").is_err());
    assert!(svc.delete_review(&r.id, "u").is_ok());
    match svc.get_review(&r.id) {
        Err(ServiceError::NotFound(m)) => assert_eq!(m, format!("Review {} not found", r.id)),
        other => panic!("unexpected {:?}", other),
    }
}

#[test]
fn review_queries_and_statistics() {
    let mut svc = ReviewService::new();
    let sub = |svc: &mut ReviewService, u: &str, s: Option<&str>, p: Option<&str>, rating: i32, c: &str| {
        svc.submit_review(u.to_string(), s.map(|x| x.to_string()), p.map(|x| x.to_string()), rating, c.to_string())
            .unwrap()
    };
    sub(&mut svc, "u1", Some("s1"), None, 5, "Great prices");
    sub(&mut svc, "u2", Some("s1"), None, 3, "Average store");
    sub(&mut svc, "u1", None, Some("p1"), 1, "Bad product");
    sub(&mut svc, "u3", Some("s2"), None, 4, "good PRICES");
    assert_eq!(svc.get_store_reviews("s1").unwrap().len(), 2);
    assert_eq!(svc.get_product_reviews("p1").unwrap().len(), 1);
    assert_eq!(svc.get_user_reviews("u1").unwrap().len(), 2);
    assert_eq!(svc.search_reviews("prices").unwrap().len(), 2);
    assert_eq!(svc.get_reviews_by_rating_range(3, 5).unwrap().len(), 3);
    assert_eq!(validation_message(svc.get_reviews_by_rating_range(4, 3)), "Invalid rating range");
    let d = svc.get_store_rating_distribution("s1").unwrap();
    assert_eq!((d.one_star, d.three_star, d.five_star, d.total), (0, 1, 1, 2));
    let st = svc.get_review_stats().unwrap();
    assert_eq!(st.total_reviews, 4);
    assert_eq!(st.store_reviews, 3);
    assert_eq!(st.product_reviews, 1);
    assert_eq!(st.rating_sum, 13);
    assert_eq!(st.unique_reviewers, 3);
    let rd = st.rating_distribution;
    assert_eq!(rd.one_star + rd.two_star + rd.three_star + rd.four_star + rd.five_star, rd.total);
    let top = svc.get_top_reviewed_items(1).unwrap();
    assert_eq!(top.stores, vec![("s1".to_string(), 2)]);
    assert_eq!(top.products, vec![("p1".to_string(), 1)]);
    assert_eq!(svc.get_recent_reviews(0, 10).unwrap().len(), 4);
    assert_eq!(svc.get_recent_reviews(3, 10).unwrap().len(), 1);
}
