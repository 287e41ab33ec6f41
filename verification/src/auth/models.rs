//! Login and registration requests.
use vstd::prelude::*;
use crate::text::{
    utf8_len,all_whitespace, byte_len, has_char, chars_of, is_blank, msg_view, owned, trim_str, trimmed};

verus! {

broadcast use vstd::string::group_string_axioms;

/// A login attempt.
#[derive(Debug)]
pub struct LoginRequest {
    pub email: String,
    pub password: String,
    pub remember_me: bool,
}

/// What the login form makes of its fields: the e-mail trimmed, or the
/// first field left blank.
pub open spec fn login_form_outcome(email: Seq<char>, password: Seq<char>) -> Result<Seq<char>, Seq<char>> {
    if all_whitespace(email) {
        Err("Please enter an email address"@)
    } else if password.len() == 0 {
        Err("Please enter a password"@)
    } else {
        Ok(trimmed(email))
    }
}

impl LoginRequest {
    /// The request the login form sends: refused while the e-mail is blank
    /// or the password empty; the e-mail is sent trimmed.
    pub fn from_form(email: &str, password: &str, remember_me: bool) -> (r: Result<LoginRequest, String>)
        ensures
            match r {
                Ok(q) => login_form_outcome(email@, password@) == Ok::<Seq<char>, Seq<char>>(q.email@)
                    && q.password@ == password@ && q.remember_me == remember_me,
                Err(m) => login_form_outcome(email@, password@) == Err::<Seq<char>, Seq<char>>(m@),
            },
    {
        if is_blank(email) {
            return Err(owned("Please enter an email address"));
        }
        if chars_of(password).len() == 0 {
            return Err(owned("Please enter a password"));
        }
        Ok(LoginRequest { email: trim_str(email), password: owned(password), remember_me })
    }
}

/// A registration attempt.
#[derive(Debug)]
pub struct RegisterRequest {
    pub username: String,
    pub email: String,
    pub password: String,
    pub password_confirm: String,
}

/// The first registration-form rule that `r` breaks, if any.
pub open spec fn register_request_outcome(r: RegisterRequest) -> Result<(), Seq<char>> {
    if all_whitespace(r.username@) {
        Err("Username cannot be empty"@)
    } else if utf8_len(r.username@) < 3 {
        Err("Username must be at least 3 characters long"@)
    } else if !r.email@.contains('@') {
        Err("Invalid email format"@)
    } else if utf8_len(r.password@) < 6 {
        Err("Password must be at least 6 characters long"@)
    } else if r.password@ != r.password_confirm@ {
        Err("Passwords do not match"@)
    } else {
        Ok(())
    }
}

impl RegisterRequest {
    /// Form checks: a username of at least 3 bytes, an `@` in the e-mail, a
    /// password of at least 6 bytes, and the password typed twice alike.
    pub fn validate(&self) -> (r: Result<(), String>)
        ensures
            msg_view(r) == register_request_outcome(*self),
    {
        if is_blank(self.username.as_str()) {
            return Err(owned("Username cannot be empty"));
        }
        if byte_len(self.username.as_str()) < 3 {
            return Err(owned("Username must be at least 3 characters long"));
        }
        let email = chars_of(self.email.as_str());
        if !has_char(&email, '@') {
            return Err(owned("Invalid email format"));
        }
        if byte_len(self.password.as_str()) < 6 {
            return Err(owned("Password must be at least 6 characters long"));
        }
        if self.password != self.password_confirm {
            return Err(owned("Passwords do not match"));
        }
        Ok(())
    }
}

} // verus!
