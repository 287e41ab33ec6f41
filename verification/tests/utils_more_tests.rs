use eprice::utils::crypto::{
    generate_salt, generate_secure_password, hash_data_sha256, u64_hex,
};
use eprice::utils::file_utils::{get_file_extension, unique_filename_at};
use eprice::utils::notification::{Notification, NotificationService, NotificationType};
use eprice::utils::numbers::{i64_decimal, parse_i64, u64_decimal};

#[test]
fn hex_spelling_of_numbers() {
    let s: String = u64_hex(0).into_iter().collect();
    assert_eq!(s, "0");
    let s: String = u64_hex(255).into_iter().collect();
    assert_eq!(s, "ff");
    let s: String = u64_hex(4096 + 10).into_iter().collect();
    assert_eq!(s, "100a");
}

#[test]
fn fingerprint_is_hex_and_stable() {
    let a = hash_data_sha256(b"hello");
    let b = hash_data_sha256(b"hello");
    assert_eq!(a, b);
    assert!(!a.is_empty());
    assert!(a.chars().all(|c| c.is_ascii_hexdigit() && !c.is_ascii_uppercase()));
    assert_eq!(
        hash_data_sha256(b"abc"),
        "ba7816bf8f01cfea414140de5dae2223b00361a396177a9cb410ff61f20015ad"
    );
    assert_eq!(
        hash_data_sha256(b""),
        "e3b0c44298fc1c149afbf4c8996fb92427ae41e4649b934ca495991b7852b855"
    );
}

#[test]
fn secure_password_has_requested_length() {
    for n in [0usize, 1, 31, 32, 33, 100] {
        let p = generate_secure_password(n);
        assert_eq!(p.chars().count(), n);
        assert!(p.chars().all(|c| c.is_ascii_hexdigit()));
    }
    let salt = generate_salt();
    assert_eq!(salt.len(), 36);
}

#[test]
fn file_extension_is_lower_cased() {
    assert_eq!(get_file_extension("photo.JPG"), Some("jpg".to_string()));
    assert_eq!(get_file_extension("dir/archive.tar.gz"), Some("gz".to_string()));
    assert_eq!(get_file_extension("README"), None);
    assert_eq!(get_file_extension(".bashrc"), None);
    assert_eq!(get_file_extension("dir.d/file"), None);
}

#[test]
fn unique_filename_shape() {
    assert_eq!(unique_filename_at("receipt", "png", 1700000000), "receipt_1700000000.png");
    assert_eq!(unique_filename_at("a", "b", -5), "a_-5.b");
}

#[test]
fn decimal_spelling_and_parsing() {
    let s: String = u64_decimal(0).into_iter().collect();
    assert_eq!(s, "0");
    let s: String = i64_decimal(-1234).into_iter().collect();
    assert_eq!(s, "-1234");
    let s: String = i64_decimal(i64::MIN).into_iter().collect();
    assert_eq!(s, i64::MIN.to_string());
    assert_eq!(parse_i64(&"987".chars().collect()), Some(987));
    assert_eq!(parse_i64(&"-42".chars().collect()), Some(-42));
    assert_eq!(parse_i64(&"12a".chars().collect()), None);
    assert_eq!(parse_i64(&"".chars().collect()), None);
    assert_eq!(parse_i64(&"9223372036854775808".chars().collect()), None);
}

#[test]
fn notifications_are_kept_newest_first_up_to_max() {
    let mut svc = NotificationService::new(2);
    svc.add_info("one".to_string(), "first".to_string());
    svc.add_warning("two".to_string(), "second".to_string());
    svc.add_error("three".to_string(), "third".to_string());
    assert_eq!(svc.get_notification_count(), 2);
    let all = svc.get_notifications();
    assert_eq!(all[0].title, "three");
    assert!(matches!(all[0].notification_type, NotificationType::Error));
    assert_eq!(all[1].title, "two");
    assert_eq!(svc.get_unread_count(), 2);
}

#[test]
fn notification_read_marks() {
    let mut svc = NotificationService::default();
    let n = Notification::new("t".to_string(), "m".to_string(), NotificationType::SystemInfo);
    let id = n.id.clone();
    svc.add_notification(n);
    svc.add_info("x".to_string(), "y".to_string());
    assert_eq!(svc.get_unread_count(), 2);
    assert!(svc.mark_as_read(&id).is_ok());
    assert_eq!(svc.get_unread_count(), 1);
    assert_eq!(svc.get_unread_notifications().len(), 1);
    assert_eq!(svc.mark_as_read("no-such-id"), Err("Notification not found".to_string()));
    svc.mark_all_as_read();
    assert_eq!(svc.get_unread_count(), 0);
    svc.clear_all();
    assert_eq!(svc.get_notification_count(), 0);
}

#[test]
fn price_alert_message_has_two_decimals() {
    let mut svc = NotificationService::new(10);
    svc.add_price_alert("Milk", 19850, 20000);
    let n = &svc.get_notifications()[0];
    assert_eq!(n.title, "Price Alert!");
    assert_eq!(n.message, "Milk is now ¥198.50 (target: ¥200.00)");
    assert!(matches!(n.notification_type, NotificationType::PriceAlert));
}

#[test]
fn unicode_spaces_separate_query_words() {
    assert_eq!(eprice::utils::sanitize_search_query("\u{3000}milk\u{2003}\u{85}tea\u{a0}"), "milk tea");
}
