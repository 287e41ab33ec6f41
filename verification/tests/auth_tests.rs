use eprice::auth::session::whole_minutes_between;
use eprice::auth::{AuthError, AuthManager, LoginRequest, RegisterRequest, SessionManager};
use eprice::models::User;

fn request(username: &str, email: &str, password: &str, confirm: &str) -> RegisterRequest {
    RegisterRequest {
        username: username.to_string(),
        email: email.to_string(),
        password: password.to_string(),
        password_confirm: confirm.to_string(),
    }
}

fn refusal(r: Result<User, AuthError>) -> String {
    match r {
        Err(AuthError::PasswordValidation(m)) => m,
        other => panic!("unexpected {:?}", other),
    }
}

#[test]
fn register_request_form_checks() {
    assert_eq!(request(" ", "a@b.cd", "Passw0rd!", "Passw0rd!").validate(), Err("Username cannot be empty".to_string()));
    assert_eq!(
        request("ab", "a@b.cd", "Passw0rd!", "Passw0rd!").validate(),
        Err("Username must be at least 3 characters long".to_string())
    );
    assert_eq!(request("abc", "ab.cd", "Passw0rd!", "Passw0rd!").validate(), Err("Invalid email format".to_string()));
    assert_eq!(
        request("abc", "a@b.cd", "Pw0!", "Pw0!").validate(),
        Err("Password must be at least 6 characters long".to_string())
    );
    assert_eq!(
        request("abc", "a@b.cd", "Passw0rd!", "Passw0rd?").validate(),
        Err("Passwords do not match".to_string())
    );
    assert_eq!(request("abc", "a@b.cd", "Passw0rd!", "Passw0rd!").validate(), Ok(()));
}

#[test]
fn manager_registers_and_logs_in() {
    let mut m = AuthManager::new();
    assert_eq!(
        refusal(m.register(request("alice", "alice@example.com", "password1", "password1"))),
        "Password must be at least 8 characters and include upper, lower, number, and symbol"
    );
    assert_eq!(
        refusal(m.register(request("al-ice", "alice@example.com", "Passw0rd!", "Passw0rd!"))),
        "用户名只能包含字母、数字和下划线"
    );
    let u = m.register(request("alice", "alice@example.com", "Passw0rd!", "Passw0rd!")).unwrap();
    assert_eq!(u.username, "alice");
    assert!(u.last_login.is_none());
    assert!(matches!(
        m.register(request("alice", "other@example.com", "Passw0rd!", "Passw0rd!")),
        Err(AuthError::UserAlreadyExists)
    ));
    let bad = m.login(LoginRequest {
        email: "alice@example.com".to_string(),
        password: "wrong".to_string(),
        remember_me: false,
    });
    assert!(matches!(bad, Err(AuthError::InvalidCredentials)));
    let unknown = m.login(LoginRequest {
        email: "bob@example.com".to_string(),
        password: "Passw0rd!".to_string(),
        remember_me: false,
    });
    assert!(matches!(unknown, Err(AuthError::InvalidCredentials)));
    let v = m
        .login(LoginRequest { email: "alice@example.com".to_string(), password: "Passw0rd!".to_string(), remember_me: true })
        .unwrap();
    assert_eq!(v.id, u.id);
    assert!(v.last_login.is_some());
    assert_eq!(m.validate_session(&format!("session_{}", u.id)).unwrap(), true);
    assert_eq!(m.validate_session("session_nobody").unwrap(), false);
    assert_eq!(m.get_user_by_id(&u.id).unwrap().unwrap().email, "alice@example.com");
    assert!(m.get_user_by_id("none").unwrap().is_none());
    let up = m.update_profile(&u.id, Some("alice2".to_string()), None, Some(7)).unwrap();
    assert_eq!(up.username, "alice2");
    assert_eq!(up.reputation_score, 7);
    assert!(matches!(m.update_profile("none", None, None, None), Err(AuthError::Unauthorized)));
    assert!(matches!(m.update_last_login("none"), Err(AuthError::Unauthorized)));
    assert!(m.update_last_login(&u.id).is_ok());
    assert_eq!(AuthError::Unauthorized.message(), "Unauthorized access");
}

#[test]
fn sessions_expire_by_lifetime() {
    let mut s = SessionManager::new();
    let user = User::new("carol".to_string(), "c@example.com".to_string(), "h".to_string());
    let short = s.create_session(user.duplicate(), false);
    let long = s.create_session(user.duplicate(), true);
    assert_eq!(s.active_session_count(), 2);
    let start = s.get_session(&short).unwrap().last_activity;
    assert!(!s.get_session(&short).unwrap().is_expired_at(start + 86_400));
    assert!(s.get_session(&short).unwrap().is_expired_at(start + 86_401));
    assert_eq!(s.get_session(&short).unwrap().session_duration_minutes_at(start + 125), 2);
    assert_eq!(s.get_user_sessions(&user.id).len(), 2);
    assert!(s.validate_session_at(&long, start + 86_401).is_some());
    assert!(s.validate_session_at(&short, start + 86_401).is_none());
    assert_eq!(s.active_session_count(), 1);
    s.cleanup_expired_sessions_at(start + 86_401 + 2_592_001);
    assert_eq!(s.active_session_count(), 0);
    let again = s.create_session(user.duplicate(), false);
    assert!(s.update_session_activity(&again));
    assert!(!s.update_session_activity("missing"));
    assert!(s.remove_session(&again));
    assert!(!s.remove_session(&again));
    s.create_session(user.duplicate(), false);
    s.remove_user_sessions(&user.id);
    assert_eq!(s.active_session_count(), 0);
}

#[test]
fn minutes_round_toward_zero() {
    assert_eq!(whole_minutes_between(0, 119), 1);
    assert_eq!(whole_minutes_between(0, -119), -1);
    assert_eq!(whole_minutes_between(100, 100), 0);
}

#[test]
fn login_form_refuses_blank_email() {
    let r = LoginRequest::from_form("   ", "secret1", false);
    assert_eq!(r.err().unwrap(), "Please enter an email address");
    let r = LoginRequest::from_form("", "", true);
    assert_eq!(r.err().unwrap(), "Please enter an email address");
}

#[test]
fn login_form_refuses_empty_password() {
    let r = LoginRequest::from_form("a@b.com", "", false);
    assert_eq!(r.err().unwrap(), "Please enter a password");
}

#[test]
fn login_form_trims_email() {
    let q = LoginRequest::from_form("  a@b.com \t", " pw ", true).unwrap();
    assert_eq!(q.email, "a@b.com");
    assert_eq!(q.password, " pw ");
    assert!(q.remember_me);
}
