//! Accounts: requests, the account manager with its sessions, and errors.
pub mod auth_manager;
pub mod models;
pub mod session;

pub use auth_manager::AuthManager;
pub use models::{LoginRequest, RegisterRequest};
pub use session::{SessionManager, UserSession};

use vstd::prelude::*;
use crate::text::owned;

verus! {

broadcast use vstd::string::group_string_axioms;

/// Why an account operation failed.
#[derive(Debug)]
pub enum AuthError {
    InvalidCredentials,
    UserAlreadyExists,
    SessionExpired,
    Unauthorized,
    PasswordValidation(String),
    Database(String),
}

/// An `AuthError` with its message taken by its characters.
pub enum AuthFailure {
    InvalidCredentials,
    UserAlreadyExists,
    SessionExpired,
    Unauthorized,
    PasswordValidation(Seq<char>),
    Database,
}

/// The failure an `AuthError` stands for.
pub open spec fn failure_of(e: AuthError) -> AuthFailure {
    match e {
        AuthError::InvalidCredentials => AuthFailure::InvalidCredentials,
        AuthError::UserAlreadyExists => AuthFailure::UserAlreadyExists,
        AuthError::SessionExpired => AuthFailure::SessionExpired,
        AuthError::Unauthorized => AuthFailure::Unauthorized,
        AuthError::PasswordValidation(m) => AuthFailure::PasswordValidation(m@),
        AuthError::Database(_) => AuthFailure::Database,
    }
}

impl AuthError {
    /// The displayed text of the error.
    pub fn message(&self) -> (r: String)
        ensures
            self is InvalidCredentials ==> r@ == "Invalid credentials"@,
            self is UserAlreadyExists ==> r@ == "User already exists"@,
            self is SessionExpired ==> r@ == "Session expired"@,
            self is Unauthorized ==> r@ == "Unauthorized access"@,
            self matches AuthError::PasswordValidation(m) ==> r@ == "Password validation failed: "@
                + m@,
            self matches AuthError::Database(m) ==> r@ == "Database error: "@ + m@,
    {
        match self {
            AuthError::InvalidCredentials => owned("Invalid credentials"),
            AuthError::UserAlreadyExists => owned("User already exists"),
            AuthError::SessionExpired => owned("Session expired"),
            AuthError::Unauthorized => owned("Unauthorized access"),
            AuthError::PasswordValidation(m) => {
                let mut s = owned("Password validation failed: ");
                s.append(m.as_str());
                s
            },
            AuthError::Database(m) => {
                let mut s = owned("Database error: ");
                s.append(m.as_str());
                s
            },
        }
    }
}

} // verus!
