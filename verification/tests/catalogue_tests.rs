use eprice::models::PriceRecord;
use eprice::services::product_service::ProductService;
use eprice::services::user_service::UserService;
use eprice::services::ServiceError;

fn record(price: i64, verified: bool) -> PriceRecord {
    let mut r = PriceRecord::new(None, "s1".to_string(), None, price, false, None);
    if verified {
        r.verify();
    }
    r
}

#[test]
fn product_prices_lowest_and_history() {
    let mut svc = ProductService::new();
    let a = svc
        .create_product("Apple".to_string(), "Food".to_string(), "Red apple".to_string(), None, vec![])
        .unwrap();
    let b = svc
        .create_product("Bread".to_string(), "Food".to_string(), "Rye bread".to_string(), None, vec![])
        .unwrap();
    assert_eq!(svc.get_current_lowest_price(&a.id).unwrap(), None);
    match svc.add_price_record(&a.id, record(0, true)) {
        Err(ServiceError::ValidationError(m)) => assert_eq!(m, "Price must be positive"),
        other => panic!("unexpected {:?}", other),
    }
    match svc.add_price_record("missing", record(10, true)) {
        Err(ServiceError::NotFound(_)) => {}
        other => panic!("unexpected {:?}", other),
    }
    svc.add_price_record(&a.id, record(300, true)).unwrap();
    svc.add_price_record(&a.id, record(200, false)).unwrap();
    svc.add_price_record(&a.id, record(250, true)).unwrap();
    svc.add_price_record(&b.id, record(100, true)).unwrap();
    assert_eq!(svc.get_current_lowest_price(&a.id).unwrap(), Some(250));
    let t = svc.get_product(&a.id).unwrap().prices[0].timestamp;
    assert_eq!(svc.get_price_history_at(&a.id, 1, t + 60).unwrap().len(), 2);
    assert_eq!(svc.get_price_history_at(&a.id, 1, t + 3 * 86_400).unwrap().len(), 0);
    let trending = svc.get_trending_products_since(1, t - 1).unwrap();
    assert_eq!(trending.len(), 1);
    assert_eq!(trending[0].id, a.id);
    assert!(svc.get_trending_products_since(5, t + 1_000_000).unwrap().len() == 2);
    let page = svc.list_products(1, 5).unwrap();
    assert_eq!(page.len(), 1);
    assert_eq!(page[0].name, "Bread");
}

#[test]
fn user_search_and_statistics() {
    let mut svc = UserService::new();
    svc.register_user("alice".to_string(), "alice@example.com".to_string(), "password123".to_string())
        .unwrap();
    svc.register_user("bob".to_string(), "bob@test.org".to_string(), "password123".to_string())
        .unwrap();
    assert_eq!(svc.search_users("ALI").unwrap().len(), 1);
    assert_eq!(svc.search_users("example").unwrap().len(), 1);
    assert_eq!(svc.search_users("o").unwrap().len(), 2);
    let (_, token) = svc.login("bob@test.org".to_string(), "password123".to_string()).unwrap();
    assert!(token.starts_with("session_"));
    assert_eq!(svc.get_active_sessions().unwrap().len(), 1);
    let stats = svc.get_user_stats().unwrap();
    assert_eq!(stats.total_users, 2);
    assert!(svc.logout(&token).is_ok());
    match svc.validate_session(&token) {
        Err(ServiceError::PermissionDenied(m)) => assert_eq!(m, "Invalid session"),
        other => panic!("unexpected {:?}", other),
    }
    match svc.logout(&token) {
        Err(ServiceError::NotFound(m)) => assert_eq!(m, "Invalid session"),
        other => panic!("unexpected {:?}", other),
    }
}
