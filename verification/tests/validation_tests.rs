use eprice::utils::validation::{validate_email, validate_password, validate_username};

#[test]
fn test_email_validation() {
    assert!(validate_email("test@example.com"));
    assert!(validate_email("user.name@domain.co.jp"));
    assert!(!validate_email("invalid.email"));
    assert!(!validate_email("@domain.com"));
    assert!(!validate_email("user@"));
}

#[test]
fn test_password_validation() {
    assert!(validate_password("password123").is_ok());
    assert!(validate_password("abc123").is_ok());
    assert!(validate_password("short").is_err());
    assert!(validate_password("nouppercase123").is_ok());
    assert!(validate_password("nonumbers").is_err());
    assert!(validate_password("123456").is_err());
}

#[test]
fn test_username_validation() {
    assert!(validate_username("user123").is_ok());
    assert!(validate_username("test_user").is_ok());
    assert!(validate_username("ab").is_err());
    assert!(validate_username("").is_err());
    assert!(validate_username("user-name").is_err());
}

#[test]
fn validation_messages() {
    assert_eq!(
        validate_password("a1"),
        Err("Password must be at least 6 characters long".to_string())
    );
    assert_eq!(
        validate_password(&"a1".repeat(65)),
        Err("Password must be less than 128 characters".to_string())
    );
    assert_eq!(
        validate_password("123456"),
        Err("Password must contain at least one letter".to_string())
    );
    assert_eq!(
        validate_password("abcdef"),
        Err("Password must contain at least one number".to_string())
    );
    assert_eq!(validate_username(""), Err("Username cannot be empty".to_string()));
    assert_eq!(
        validate_username(&"a".repeat(51)),
        Err("Username must be less than 50 characters".to_string())
    );
    assert!(validate_username("_under_").is_ok());
    assert!(validate_email("a.b-c@x.org"));
    assert!(!validate_email("a@b.c"));
}
