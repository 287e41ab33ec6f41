use eprice::alerts::monitor::PriceMonitor;
use eprice::alerts::notification::{
    delivery_channels, json_price, money, Channel, NotificationConfig, NotificationService, NotificationStatus,
    NotificationType,
};
use eprice::alerts::{AlertError, AlertService};
use eprice::models::{PriceAlert, User};

#[test]
fn money_has_two_decimals() {
    assert_eq!(money(0), "0.00");
    assert_eq!(money(5), "0.05");
    assert_eq!(money(12345), "123.45");
    assert_eq!(money(-250), "-2.50");
    assert_eq!(money(i64::MIN), "-92233720368547758.08");
}

#[test]
fn channels_by_kind_and_settings() {
    let all = NotificationConfig::default();
    assert_eq!(
        delivery_channels(NotificationType::PriceAlert, all),
        vec![Channel::Email, Channel::Push, Channel::InApp]
    );
    let quiet = NotificationConfig { email_enabled: false, push_enabled: false, in_app_enabled: false, ..all };
    assert_eq!(delivery_channels(NotificationType::SystemAlert, quiet), vec![Channel::InApp]);
    assert!(delivery_channels(NotificationType::ProductUpdate, quiet).is_empty());
    assert_eq!(delivery_channels(NotificationType::UserMessage, all), vec![Channel::Email, Channel::InApp]);
}

#[test]
fn monitor_checks_alerts_against_latest_sample_price() {
    let mut m = PriceMonitor::new();
    assert!(m.start().is_ok());
    assert!(matches!(m.start(), Err(AlertError::MonitoringFailed(_))));
    let hit = PriceAlert::new("u1".to_string(), "cola-1".to_string(), 10_500);
    let miss = PriceAlert::new("u1".to_string(), "cola-1".to_string(), 9_000);
    let mut off = PriceAlert::new("u2".to_string(), "water".to_string(), 100_000);
    off.deactivate();
    let (hit_id, miss_id) = (hit.id.clone(), miss.id.clone());
    m.add_alert(hit).unwrap();
    m.add_alert(miss).unwrap();
    m.add_alert(off).unwrap();
    match m.add_alert(PriceAlert::new("u".to_string(), "p".to_string(), 0)) {
        Err(AlertError::InvalidThreshold(t)) => assert_eq!(t, 0),
        other => panic!("unexpected {:?}", other),
    }
    assert_eq!(m.get_all_alerts().unwrap().len(), 3);
    assert_eq!(m.get_user_alerts("u1").unwrap().len(), 2);
    assert_eq!(m.get_user_alerts("u2").unwrap().len(), 0);
    let results = m.check_all_alerts_at(1_000_000).unwrap();
    assert_eq!(results.len(), 2);
    assert_eq!(results[0].alert_id, hit_id);
    assert_eq!(results[0].current_price, Some(10_000));
    assert!(results[0].triggered);
    assert_eq!(results[0].timestamp, 1_000_000);
    assert_eq!(results[1].alert_id, miss_id);
    assert!(!results[1].triggered);
    // A later check uses the sample kept from the first one.
    let again = m.check_all_alerts_at(2_000_000).unwrap();
    assert_eq!(again[0].current_price, Some(10_000));
    assert_eq!(again[0].timestamp, 2_000_000);
    assert!(m.remove_alert(&miss_id).is_ok());
    match m.remove_alert(&miss_id) {
        Err(AlertError::AlertNotFound(id)) => assert_eq!(id, miss_id),
        other => panic!("unexpected {:?}", other),
    }
    assert!(m.stop().is_ok());
    assert!(!m.is_running());
    assert!(m.clear_cache().is_ok());
}

#[test]
fn mock_price_samples() {
    let s = PriceMonitor::generate_mock_prices("chips", 100_000);
    assert_eq!(s.len(), 5);
    let prices: Vec<i64> = s.iter().map(|p| p.price).collect();
    assert_eq!(prices, vec![18_000, 19_000, 20_000, 21_000, 22_000]);
    assert_eq!(s[1].timestamp, 100_000 - 3600);
    assert_eq!(s[4].store_id, "store_5");
    assert!(s[0].is_on_sale);
    assert!(!s[2].is_on_sale);
    assert!(s.iter().all(|p| p.verification_status == "verified"));
    let low = PriceMonitor::generate_mock_prices("x", 0);
    assert_eq!(low[0].price, 13_000);
}

#[test]
fn notifications_are_recorded_and_read() {
    let mut n = NotificationService::new();
    let user = User::new("alice".to_string(), "a@example.com".to_string(), "h".to_string());
    let alert = PriceAlert::new(user.id.clone(), "p9".to_string(), 2000);
    n.send_price_alert(&user, &alert, 1999).unwrap();
    n.send_notification("bob", NotificationType::UserMessage, "Hi".to_string(), "Hello".to_string(), None)
        .unwrap();
    let mine = n.get_user_notifications(&user.id).unwrap();
    assert_eq!(mine.len(), 1);
    assert_eq!(mine[0].title, "Price Alert: Target Reached!");
    assert_eq!(
        mine[0].message,
        "Your price alert for product p9 has been triggered! Current price: ¥19.99, Target: ¥20.00"
    );
    assert_eq!(mine[0].status, NotificationStatus::Sent);
    let data = mine[0].data.clone().unwrap();
    assert!(data.starts_with("{\"alert_id\":\""));
    assert!(data.contains("\"current_price\":19.99"));
    assert!(data.ends_with("\"target_price\":20.0}"));
    assert_eq!(n.get_unread_count(&user.id).unwrap(), 1);
    n.mark_as_read_at(&mine[0].id, 77).unwrap();
    assert_eq!(n.get_unread_count(&user.id).unwrap(), 0);
    let again = n.get_user_notifications(&user.id).unwrap();
    assert_eq!(again[0].read_at, Some(77));
    assert_eq!(again[0].status, NotificationStatus::Sent);
    match n.mark_as_read_at("nope", 1) {
        Err(AlertError::NotificationFailed(m)) => assert_eq!(m, "Notification nope not found"),
        other => panic!("unexpected {:?}", other),
    }
    let created = again[0].created_at;
    assert_eq!(n.clear_old_notifications_at(1, created + 86_400 * 2).unwrap(), 2);
    assert!(n.get_user_notifications(&user.id).unwrap().is_empty());
}

#[test]
fn alert_service_wires_monitor() {
    let mut s = AlertService::new();
    assert!(!s.is_monitoring());
    s.start_monitoring().unwrap();
    assert!(s.is_monitoring());
    s.add_alert(PriceAlert::new("u".to_string(), "p".to_string(), 100)).unwrap();
    assert_eq!(s.get_user_alerts("u").unwrap().len(), 1);
    assert_eq!(s.check_alerts().unwrap().len(), 1);
    s.stop_monitoring().unwrap();
    assert!(!s.is_monitoring());
    assert_eq!(
        AlertError::InvalidThreshold(-5).message(),
        "Invalid price threshold: -5"
    );
}

#[test]
fn json_prices_are_written_as_floats() {
    assert_eq!(json_price(1999), "19.99");
    assert_eq!(json_price(2000), "20.0");
    assert_eq!(json_price(150050), "1500.5");
    assert_eq!(json_price(105), "1.05");
    assert_eq!(json_price(0), "0.0");
    assert_eq!(json_price(-5), "-0.05");
}

#[test]
fn alert_data_escapes_the_product_id() {
    let mut n = NotificationService::new();
    let user = User::new("alice".to_string(), "a@example.com".to_string(), "h".to_string());
    let alert = PriceAlert::new(user.id.clone(), "p\"9\\\n\u{1}".to_string(), 2000);
    n.send_price_alert(&user, &alert, 2000).unwrap();
    let data = n.get_user_notifications(&user.id).unwrap()[0].data.clone().unwrap();
    assert!(data.contains("\"product_id\":\"p\\\"9\\\\\\n\\u0001\""));
    assert!(data.contains("\"current_price\":20.0,"));
}
