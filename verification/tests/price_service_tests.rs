use eprice::services::price_service::PriceService;
use eprice::services::ServiceError;
use eprice::verification::manager::VerificationManager;

fn submit(svc: &mut PriceService, product: &str, store: &str, price: i64, sale: bool) -> String {
    let r = svc
        .submit_price(product.to_string(), store.to_string(), Some("u1".to_string()), price, sale, None)
        .unwrap();
    r.id.unwrap()
}

#[test]
fn submitted_prices_are_checked() {
    let mut svc = PriceService::new();
    match svc.submit_price("p".to_string(), "s".to_string(), None, 0, false, None) {
        Err(ServiceError::ValidationError(m)) => assert_eq!(m, "Price must be positive"),
        other => panic!("unexpected {:?}", other),
    }
    match svc.submit_price("p".to_string(), "s".to_string(), None, 100_000_001, false, None) {
        Err(ServiceError::ValidationError(m)) => assert_eq!(m, "Price too high"),
        other => panic!("unexpected {:?}", other),
    }
    let r = svc.submit_price("p".to_string(), "s".to_string(), None, 100_000_000, true, None).unwrap();
    assert_eq!(r.verification_status, "pending");
    assert_eq!(r.product_id, Some("p".to_string()));
    assert!(r.is_on_sale);
    let id = r.id.unwrap();
    assert_eq!(svc.get_price_record(&id).unwrap().price, 100_000_000);
    match svc.get_price_record("nope") {
        Err(ServiceError::NotFound(m)) => assert_eq!(m, "Price record nope not found"),
        other => panic!("unexpected {:?}", other),
    }
}

#[test]
fn verified_prices_drive_lowest_statistics_and_alerts() {
    let mut svc = PriceService::new();
    let a = submit(&mut svc, "p1", "s1", 500, false);
    let b = submit(&mut svc, "p1", "s2", 300, true);
    let c = submit(&mut svc, "p1", "s1", 400, false);
    let _d = submit(&mut svc, "p2", "s3", 50, false);
    assert!(svc.get_current_lowest_price("p1").unwrap().is_none());
    assert_eq!(svc.verify_price(&b, true).unwrap().verification_status, "verified");
    svc.verify_price(&c, true).unwrap();
    assert_eq!(svc.verify_price(&a, false).unwrap().verification_status, "rejected");
    let low = svc.get_current_lowest_price("p1").unwrap().unwrap();
    assert_eq!(low.price, 300);
    assert_eq!(low.store_id, "s2");

    let st = svc.get_price_statistics("p1").unwrap();
    assert_eq!(st.min_price, 300);
    assert_eq!(st.max_price, 400);
    assert_eq!(st.price_sum, 700);
    assert_eq!(st.median_low, 300);
    assert_eq!(st.median_high, 400);
    assert_eq!(st.total_records, 2);
    assert_eq!(st.stores_count, 2);
    assert_eq!(st.sale_count, 1);
    let none = svc.get_price_statistics("p2").unwrap();
    assert_eq!(none.total_records, 0);
    assert_eq!(none.min_price, 0);

    let cmp = svc.get_price_comparison("p1").unwrap();
    let stores: Vec<&str> = cmp.iter().map(|c| c.store_id.as_str()).collect();
    assert_eq!(stores, vec!["s2", "s1"]);
    assert_eq!(cmp[1].price, 400);

    let alerts = svc
        .check_price_alerts(&[("p1".to_string(), 350), ("p1".to_string(), 200), ("p2".to_string(), 100)])
        .unwrap();
    assert_eq!(alerts.len(), 1);
    assert_eq!(alerts[0].product_id, "p1");
    assert_eq!(alerts[0].target_price, 350);
    assert_eq!(alerts[0].current_price, 300);
    assert_eq!(alerts[0].store_id, "s2");

    let sub = svc.get_submission_stats().unwrap();
    assert_eq!(sub.total_submissions, 4);
    assert_eq!(sub.verified_count, 2);
    assert_eq!(sub.pending_count, 1);
    assert_eq!(sub.rejected_count, 1);
    assert_eq!(sub.unique_products, 2);
    assert_eq!(sub.unique_stores, 3);

    assert_eq!(svc.get_product_prices("p1").unwrap().len(), 3);
    assert_eq!(svc.get_verified_product_prices("p1").unwrap().len(), 2);
    assert_eq!(svc.get_store_prices("s1").unwrap().len(), 2);
    assert_eq!(svc.get_user_prices("u1").unwrap().len(), 4);
    assert_eq!(svc.get_user_prices("u2").unwrap().len(), 0);

    let reset = svc.reset_price_record_status(&b).unwrap();
    assert_eq!(reset.verification_status, "pending");
    assert_eq!(svc.get_current_lowest_price("p1").unwrap().unwrap().price, 400);
}

#[test]
fn history_and_trending_by_time() {
    let mut svc = PriceService::new();
    let a = submit(&mut svc, "p1", "s1", 500, false);
    let b = submit(&mut svc, "p2", "s1", 300, false);
    let c = submit(&mut svc, "p2", "s2", 310, false);
    for id in [&a, &b, &c] {
        svc.verify_price(id, true).unwrap();
    }
    let t = svc.get_price_record(&a).unwrap().timestamp;
    assert_eq!(svc.get_price_history_at("p2", 1, t + 10).unwrap().len(), 2);
    assert_eq!(svc.get_price_history_at("p2", 1, t + 10 * 86400).unwrap().len(), 0);
    let trending = svc.get_trending_prices_since(5, t - 1).unwrap();
    let ids: Vec<&str> = trending.iter().map(|x| x.product_id.as_str()).collect();
    assert_eq!(ids, vec!["p2", "p1"]);
    assert_eq!(trending[0].activity_count, 2);
    assert_eq!(svc.get_trending_prices_since(1, t - 1).unwrap().len(), 1);
    assert!(svc.get_trending_prices_since(5, t + 1_000_000).unwrap().is_empty());
}

#[test]
fn reviews_update_records_and_history() {
    let mut svc = PriceService::new();
    let a = submit(&mut svc, "p1", "s1", 500, false);
    let b = submit(&mut svc, "p1", "s2", 600, false);
    let mut vm = VerificationManager::new();
    vm.verify_price_record_at(&mut svc, &a, "alice", Some("looks right".to_string()), 1000).unwrap();
    assert_eq!(svc.get_price_record(&a).unwrap().verification_status, "verified");
    let h = vm.get_verification_history(&a).unwrap();
    assert_eq!(h.original_status, "pending");
    assert_eq!(h.new_status, "verified");
    assert_eq!(h.verified_by, "alice");
    assert_eq!(h.timestamp, 1000);
    assert_eq!(h.reason, Some("looks right".to_string()));
    vm.reject_price_record_at(&mut svc, &a, "bob", None, 2000).unwrap();
    let h = vm.get_verification_history(&a).unwrap();
    assert_eq!(h.original_status, "verified");
    assert_eq!(h.new_status, "rejected");
    assert_eq!(vm.get_all_verification_history().len(), 1);
    match vm.verify_price_record_at(&mut svc, "missing", "bob", None, 1) {
        Err(ServiceError::NotFound(m)) => assert_eq!(m, "Price record missing not found"),
        other => panic!("unexpected {:?}", other),
    }
    let n = vm
        .bulk_verify_records_at(&mut svc, &[b.clone(), "missing".to_string()], "carol", None, 3000)
        .unwrap();
    assert_eq!(n, 1);
    let st = vm.get_verification_stats_at(&svc, 3000).unwrap();
    assert_eq!(st.total_verified, 1);
    assert_eq!(st.total_rejected, 1);
    assert_eq!(st.total_pending, 0);
    assert_eq!(st.verification_rate, 5000);
    assert_eq!(st.recent_verifications, 2);
    assert_eq!(vm.get_verification_stats_at(&svc, 2000 + 86400).unwrap().recent_verifications, 1);
    vm.reset_to_pending_at(&mut svc, &b, "carol", None, 4000).unwrap();
    assert_eq!(svc.get_price_record(&b).unwrap().verification_status, "pending");
    let n = vm.bulk_reject_records_at(&mut svc, &[a.clone(), b.clone()], "dan", None, 5000).unwrap();
    assert_eq!(n, 2);
    assert_eq!(vm.get_verification_stats_at(&svc, 5000).unwrap().total_rejected, 2);
}
