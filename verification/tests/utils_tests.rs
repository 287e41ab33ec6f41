use eprice::utils::{
    calculate_price_trend, format_datetime, format_price, generate_barcode_checksum, generate_salt,
    generate_secure_password, generate_user_token, hash_data_sha256, hash_password, parse_price,
    sanitize_search_query, slug_from_string, truncate_string, validate_barcode, validate_email,
    validate_password, validate_password_strength, validate_username, verify_password,
    verify_user_token, Currency, DateTimeFormat, PriceTrend,
};
use chrono::TimeZone;
use eprice::utils::textops::replace_double_spaces;

#[test]
fn test_format_price_jpy() {
    assert_eq!(format_price(1000, Currency::JPY), "¥1,000");
    assert_eq!(format_price(1234567, Currency::JPY), "¥1,234,567");
    assert_eq!(format_price(0, Currency::JPY), "¥0");
    assert_eq!(format_price(99, Currency::JPY), "¥99");
}

#[test]
fn test_format_price_usd() {
    assert_eq!(format_price(1000, Currency::USD), "$10.00");
    assert_eq!(format_price(1234567, Currency::USD), "$12,345.67");
    assert_eq!(format_price(0, Currency::USD), "$0.00");
    assert_eq!(format_price(99, Currency::USD), "$0.99");
    assert_eq!(format_price(1, Currency::USD), "$0.01");
}

#[test]
fn test_format_price_eur() {
    assert_eq!(format_price(1000, Currency::EUR), "€10.00");
    assert_eq!(format_price(1234567, Currency::EUR), "€12,345.67");
    assert_eq!(format_price(0, Currency::EUR), "€0.00");
    assert_eq!(format_price(99, Currency::EUR), "€0.99");
}

#[test]
fn format_price_negative_and_extreme_amounts() {
    assert_eq!(format_price(-1000, Currency::JPY), "¥-1,000");
    assert_eq!(format_price(-5, Currency::USD), "$-0.05");
    assert_eq!(format_price(100000000, Currency::EUR), "€1,000,000.00");
    assert_eq!(
        format_price(i64::MIN, Currency::JPY),
        "¥-9,223,372,036,854,775,808"
    );
}

#[test]
fn test_validate_email() {
    assert!(validate_email("test@example.com"));
    assert!(validate_email("user.name@domain.co.jp"));
    assert!(validate_email("user+tag@domain.org"));
    assert!(validate_email("user123@subdomain.domain.com"));

    assert!(!validate_email("invalid"));
    assert!(!validate_email("@domain.com"));
    assert!(!validate_email("user@"));
    assert!(!validate_email("user@domain"));
    assert!(!validate_email("user..name@domain.com"));
    assert!(!validate_email(""));
}

#[test]
fn validate_email_edge_cases() {
    assert!(!validate_email("a@b@c.com"));
    assert!(!validate_email(".user@domain.com"));
    assert!(!validate_email("user.@domain.com"));
    assert!(!validate_email("user@.domain.com"));
    assert!(!validate_email("user@domain.com."));
    assert!(!validate_email("user@domain.c"));
    assert!(!validate_email("user@domain.c0m"));
    assert!(!validate_email("us er@domain.com"));
    assert!(!validate_email("user@dom_ain.com"));
    assert!(validate_email("a-b_c%d@x-y.io"));
}

#[test]
fn test_validate_password() {
    assert!(validate_password("Password123!"));
    assert!(validate_password("MySecureP@ss1"));
    assert!(validate_password("Abcdef123!"));

    assert!(!validate_password("Pass1!"));
    assert!(!validate_password(""));

    assert!(!validate_password("password123!"));

    assert!(!validate_password("PASSWORD123!"));

    assert!(!validate_password("Password!"));

    assert!(!validate_password("Password123"));
}

#[test]
fn test_validate_barcode() {
    assert!(validate_barcode("1234567890123"));
    assert!(validate_barcode("123456789012"));
    assert!(validate_barcode("12345678"));

    assert!(!validate_barcode("12345"));
    assert!(!validate_barcode("12345678901234"));
    assert!(!validate_barcode("1234567890abc"));
    assert!(!validate_barcode("1234-5678-9012"));
    assert!(!validate_barcode(""));
}

#[test]
fn test_sanitize_search_query() {
    assert_eq!(sanitize_search_query("  Normal Query  "), "Normal Query");
    assert_eq!(
        sanitize_search_query("Query\nWith\nNewlines"),
        "Query With Newlines"
    );
    assert_eq!(
        sanitize_search_query("Query\tWith\tTabs"),
        "Query With Tabs"
    );
    assert_eq!(
        sanitize_search_query("Query\r\nWith\r\nCRLF"),
        "Query With CRLF"
    );
    assert_eq!(
        sanitize_search_query("  Multiple   Spaces  "),
        "Multiple Spaces"
    );
    assert_eq!(sanitize_search_query(""), "");
    assert_eq!(sanitize_search_query("   "), "");
}

#[test]
fn test_parse_price() {
    assert_eq!(parse_price("1000"), Ok(1000));
    assert_eq!(parse_price("10.50"), Ok(1050));
    assert_eq!(parse_price("1,234"), Ok(1234));
    assert_eq!(parse_price("1,234.56"), Ok(123456));
    assert_eq!(parse_price("0"), Ok(0));
    assert_eq!(parse_price("0.01"), Ok(1));

    assert!(parse_price("").is_err());
    assert!(parse_price("abc").is_err());
    assert!(parse_price("-10").is_err());
    assert!(parse_price("10.999").is_err());
}

#[test]
fn parse_price_error_messages() {
    assert_eq!(parse_price("   "), Err("empty input".to_string()));
    assert_eq!(parse_price("-1"), Err("negative not allowed".to_string()));
    assert_eq!(parse_price("12a"), Err("invalid character".to_string()));
    assert_eq!(parse_price("1.2.3"), Err("too many decimal points".to_string()));
    assert_eq!(parse_price(".50"), Err("invalid integer".to_string()));
    assert_eq!(
        parse_price("99999999999999999999"),
        Err("invalid integer".to_string())
    );
    assert_eq!(parse_price("1.234"), Err("too many fraction digits".to_string()));
    assert_eq!(parse_price("7."), Ok(700));
    assert_eq!(parse_price("7.5"), Ok(750));
    assert_eq!(parse_price(" 1 000 "), Ok(1000));
}

#[test]
fn test_generate_barcode_checksum() {
    assert_eq!(generate_barcode_checksum("123456789012"), Some(8));
    assert_eq!(generate_barcode_checksum("400330101393"), Some(7));

    assert_eq!(generate_barcode_checksum("03600029145"), Some(2));

    assert_eq!(generate_barcode_checksum("123"), None);
    assert_eq!(generate_barcode_checksum("12345678901234"), None);
    assert_eq!(generate_barcode_checksum("12345678901a"), None);
}

#[test]
fn test_truncate_string() {
    assert_eq!(truncate_string("Hello World", 5), "Hello");
    assert_eq!(truncate_string("Hello World", 20), "Hello World");
    assert_eq!(truncate_string("Hello World", 11), "Hello World");
    assert_eq!(truncate_string("", 5), "");
    assert_eq!(truncate_string("Hello", 0), "");
}

#[test]
fn truncate_string_counts_characters() {
    assert_eq!(truncate_string("日本語テキスト", 3), "日本語");
    assert_eq!(truncate_string("日本", 3), "日本");
}

#[test]
fn test_slug_from_string() {
    assert_eq!(slug_from_string("Hello World"), "hello-world");
    assert_eq!(slug_from_string("Product Name 123"), "product-name-123");
    assert_eq!(
        slug_from_string("Special Characters!@#$%"),
        "special-characters"
    );
    assert_eq!(slug_from_string("  Multiple   Spaces  "), "multiple-spaces");
    assert_eq!(slug_from_string("Ünïcödé Tëxt"), "unicode-text");
    assert_eq!(slug_from_string(""), "");
}

#[test]
fn slug_from_string_dashes() {
    assert_eq!(slug_from_string("--a--b--"), "a-b");
    assert_eq!(slug_from_string("Crème Brûlée"), "creme-brulee");
}

#[test]
fn test_calculate_price_trend() {
    let prices = vec![(1, 1000), (2, 1100), (3, 1050), (4, 1200)];
    assert_eq!(calculate_price_trend(&prices), PriceTrend::Increasing);
}

#[test]
fn test_calculate_price_trend_decreasing() {
    let prices = vec![(1, 1200), (2, 1100), (3, 1050), (4, 1000)];
    assert_eq!(calculate_price_trend(&prices), PriceTrend::Decreasing);
}

#[test]
fn test_calculate_price_trend_stable() {
    let prices = vec![(1, 1000), (2, 1005), (3, 995), (4, 1000)];
    assert_eq!(calculate_price_trend(&prices), PriceTrend::Stable);
}

#[test]
fn calculate_price_trend_edges() {
    assert_eq!(calculate_price_trend(&[]), PriceTrend::Stable);
    assert_eq!(calculate_price_trend(&[(1, 0), (2, 500)]), PriceTrend::Stable);
    assert_eq!(calculate_price_trend(&[(1, 1000), (2, 1010)]), PriceTrend::Stable);
    assert_eq!(calculate_price_trend(&[(1, 1000), (2, 1011)]), PriceTrend::Increasing);
    assert_eq!(calculate_price_trend(&[(1, 1000), (2, 989)]), PriceTrend::Decreasing);
}

#[test]
fn test_hash_password() {
    let password = "testpassword123";
    let hash = hash_password(password).expect("Failed to hash password");

    assert_ne!(hash, password);

    assert!(hash.starts_with("$2b$"));

    assert!(verify_password(password, &hash).expect("Failed to verify password"));

    assert!(!verify_password("wrongpassword", &hash).expect("Failed to verify wrong password"));
}

#[test]
fn verify_password_malformed_hash_is_error() {
    assert!(verify_password("x", "not-a-hash").is_err());
}

#[test]
fn test_generate_user_token() {
    let user_id = 123;
    let token = generate_user_token(user_id);

    assert!(!token.is_empty());

    let token2 = generate_user_token(user_id);
    assert_ne!(token, token2);

    assert!(verify_user_token(&token, user_id));
    assert!(!verify_user_token(&token, 456));
}

#[test]
fn user_token_negative_id_and_plain_prefix() {
    let token = generate_user_token(-42);
    assert!(token.starts_with("-42:"));
    assert!(verify_user_token(&token, -42));
    assert!(verify_user_token("+7", 7));
    assert!(!verify_user_token("x:7", 7));
    assert!(!verify_user_token("", 0));
}

#[test]
fn generated_secrets_have_expected_shape() {
    let salt = generate_salt();
    assert_eq!(salt.len(), 36);
    let p = generate_secure_password(50);
    assert_eq!(p.chars().count(), 50);
    assert!(p.chars().all(|c| c.is_ascii_hexdigit() && !c.is_ascii_uppercase()));
    assert_eq!(generate_secure_password(0), "");
    let h = hash_data_sha256(b"abc");
    assert!(!h.is_empty());
    assert_eq!(h, hash_data_sha256(b"abc"));
    assert!(h.chars().all(|c| c.is_ascii_hexdigit()));
}

#[test]
fn password_strength_messages() {
    assert_eq!(
        validate_password_strength("Ab1!"),
        Err("Password must be at least 8 characters long".to_string())
    );
    assert_eq!(
        validate_password_strength("abcdefg1!"),
        Err("Password must contain at least one uppercase letter".to_string())
    );
    assert_eq!(
        validate_password_strength("ABCDEFG1!"),
        Err("Password must contain at least one lowercase letter".to_string())
    );
    assert_eq!(
        validate_password_strength("Abcdefgh!"),
        Err("Password must contain at least one digit".to_string())
    );
    assert_eq!(
        validate_password_strength("Abcdefgh1"),
        Err("Password must contain at least one special character".to_string())
    );
    assert_eq!(validate_password_strength("Abcdefg1!"), Ok(()));
}

#[test]
fn username_rule_messages() {
    assert_eq!(validate_username("  "), Err("用户名不能为空".to_string()));
    assert_eq!(validate_username("ab"), Err("用户名至少需要3个字符".to_string()));
    assert_eq!(
        validate_username(&"a".repeat(31)),
        Err("用户名不能超过30个字符".to_string())
    );
    assert_eq!(
        validate_username("user-name"),
        Err("用户名只能包含字母、数字和下划线".to_string())
    );
    assert_eq!(
        validate_username("_user"),
        Err("用户名不能以下划线开头或结尾".to_string())
    );
    assert_eq!(validate_username("user_1"), Ok(()));
    assert_eq!(validate_username("用户名"), Ok(()));
}

#[test]
fn test_format_datetime() {
    let datetime = chrono::Utc.with_ymd_and_hms(2023, 12, 25, 15, 30, 45).unwrap().timestamp();

    // Test different formats
    assert_eq!(format_datetime(datetime, DateTimeFormat::Short).unwrap(), "12/25/23");
    assert_eq!(format_datetime(datetime, DateTimeFormat::Medium).unwrap(), "Dec 25, 2023");
    assert_eq!(format_datetime(datetime, DateTimeFormat::Long).unwrap(), "December 25, 2023 15:30");
    assert_eq!(
        format_datetime(datetime, DateTimeFormat::Full).unwrap(),
        "December 25, 2023 15:30:45 UTC"
    );
}

#[test]
fn format_datetime_single_digit_day_has_one_space() {
    // 2024-03-05 08:09:10 UTC: chrono pads the day with a space.
    let t = chrono::Utc.with_ymd_and_hms(2024, 3, 5, 8, 9, 10).unwrap().timestamp();
    assert_eq!(format_datetime(t, DateTimeFormat::Short).unwrap(), "03/05/24");
    assert_eq!(format_datetime(t, DateTimeFormat::Medium).unwrap(), "Mar 5, 2024");
    assert_eq!(format_datetime(t, DateTimeFormat::Long).unwrap(), "March 5, 2024 08:09");
    assert_eq!(format_datetime(t, DateTimeFormat::Full).unwrap(), "March 5, 2024 08:09:10 UTC");
}

#[test]
fn format_datetime_out_of_range_is_none() {
    assert!(format_datetime(i64::MAX, DateTimeFormat::Short).is_none());
}

#[test]
fn replace_double_spaces_pairs_left_to_right() {
    assert_eq!(replace_double_spaces("a  b"), "a b");
    assert_eq!(replace_double_spaces("a   b"), "a  b");
    assert_eq!(replace_double_spaces("a    b"), "a  b");
    assert_eq!(replace_double_spaces(" "), " ");
    assert_eq!(replace_double_spaces(""), "");
}

#[test]
fn slug_of_a_slug_is_itself() {
    for s in ["Hello World!", "  --Café  au   lait--", "Ünïcode ÀÉÎ 123", "a--b", "", "---"] {
        let once = slug_from_string(s);
        assert_eq!(slug_from_string(&once), once);
    }
    assert_eq!(slug_from_string("Café au lait"), "cafe-au-lait");
}
