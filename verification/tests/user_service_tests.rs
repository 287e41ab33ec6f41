use eprice::services::user_service::UserService;

#[test]
fn test_user_registration_success() {
    let mut service = UserService::new();

    let result = service.register_user(
        "testuser".to_string(),
        "test@example.com".to_string(),
        "password123".to_string(),
    );

    assert!(result.is_ok());
    let user = result.unwrap();
    assert_eq!(user.username, "testuser");
    assert_eq!(user.email, "test@example.com");
    assert!(!user.password_hash.is_empty());
}

#[test]
fn test_user_registration_duplicate_username() {
    let mut service = UserService::new();

    service
        .register_user(
            "testuser".to_string(),
            "test1@example.com".to_string(),
            "password123".to_string(),
        )
        .unwrap();

    let result = service.register_user(
        "testuser".to_string(),
        "test2@example.com".to_string(),
        "password456".to_string(),
    );

    assert!(result.is_err());
}

#[test]
fn test_user_registration_duplicate_email() {
    let mut service = UserService::new();

    service
        .register_user(
            "testuser1".to_string(),
            "test@example.com".to_string(),
            "password123".to_string(),
        )
        .unwrap();

    let result = service.register_user(
        "testuser2".to_string(),
        "test@example.com".to_string(),
        "password456".to_string(),
    );

    assert!(result.is_err());
}

#[test]
fn test_user_registration_invalid_input() {
    let mut service = UserService::new();

    let result = service.register_user(
        "".to_string(),
        "test@example.com".to_string(),
        "password123".to_string(),
    );
    assert!(result.is_err());

    let result = service.register_user(
        "testuser".to_string(),
        "invalid-email".to_string(),
        "password123".to_string(),
    );
    assert!(result.is_err());

    let result = service.register_user(
        "testuser".to_string(),
        "test@example.com".to_string(),
        "123".to_string(),
    );
    assert!(result.is_err());
}

#[test]
fn test_user_login_success() {
    let mut service = UserService::new();

    service
        .register_user(
            "testuser".to_string(),
            "test@example.com".to_string(),
            "password123".to_string(),
        )
        .unwrap();

    let result = service.login("testuser".to_string(), "password123".to_string());
    assert!(result.is_ok());

    let (user, session_token) = result.unwrap();
    assert_eq!(user.username, "testuser");
    assert!(!session_token.is_empty());

    let result = service.login("test@example.com".to_string(), "password123".to_string());
    assert!(result.is_ok());
}

#[test]
fn test_user_login_failure() {
    let mut service = UserService::new();

    service
        .register_user(
            "testuser".to_string(),
            "test@example.com".to_string(),
            "password123".to_string(),
        )
        .unwrap();

    let result = service.login("testuser".to_string(), "wrongpassword".to_string());
    assert!(result.is_err());

    let result = service.login("nonexistent".to_string(), "password123".to_string());
    assert!(result.is_err());
}

#[test]
fn test_session_management() {
    let mut service = UserService::new();

    let user = service
        .register_user(
            "testuser".to_string(),
            "test@example.com".to_string(),
            "password123".to_string(),
        )
        .unwrap();

    let (_, session_token) = service.login("testuser".to_string(), "password123".to_string()).unwrap();

    let result = service.validate_session(&session_token);
    assert!(result.is_ok());
    assert_eq!(result.unwrap().id, user.id);

    let result = service.logout(&session_token);
    assert!(result.is_ok());

    let result = service.validate_session(&session_token);
    assert!(result.is_err());
}

#[test]
fn test_user_profile_update() {
    let mut service = UserService::new();

    let user = service
        .register_user(
            "testuser".to_string(),
            "test@example.com".to_string(),
            "password123".to_string(),
        )
        .unwrap();

    let result = service.update_user_profile(
        &user.id,
        Some("newusername".to_string()),
        Some("newemail@example.com".to_string()),
        None,
    );
    assert!(result.is_ok());

    let updated_user = result.unwrap();
    assert_eq!(updated_user.username, "newusername");
    assert_eq!(updated_user.email, "newemail@example.com");
}

#[test]
fn test_password_change() {
    let mut service = UserService::new();

    let user = service
        .register_user(
            "testuser".to_string(),
            "test@example.com".to_string(),
            "password123".to_string(),
        )
        .unwrap();

    let result = service.change_password(&user.id, "password123".to_string(), "newpassword456".to_string());
    assert!(result.is_ok());

    let result = service.login("testuser".to_string(), "password123".to_string());
    assert!(result.is_err());

    let result = service.login("testuser".to_string(), "newpassword456".to_string());
    assert!(result.is_ok());
}

#[test]
fn test_get_user_stats() {
    let mut service = UserService::new();

    service
        .register_user(
            "user1".to_string(),
            "user1@example.com".to_string(),
            "password123".to_string(),
        )
        .unwrap();
    service
        .register_user(
            "user2".to_string(),
            "user2@example.com".to_string(),
            "password123".to_string(),
        )
        .unwrap();

    service.login("user1".to_string(), "password123".to_string()).unwrap();

    let stats = service.get_user_stats().unwrap();
    assert_eq!(stats.total_users, 2);
    assert_eq!(stats.active_sessions, 1);
}
