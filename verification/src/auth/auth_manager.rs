//! The account manager: registration, login, profiles and sessions.
//!
//! Accounts are keyed by id and have distinct user names and e-mail
//! addresses; a login opens the session `session_<id>`.
use vstd::prelude::*;
use crate::accounts::{
    email_index, email_taken_by_other, find_email, find_id, find_session, find_username, has_email,
    has_id, has_session, has_username, id_index, lemma_email_index, lemma_id_index, lemma_put_user,
    put_position,
    lemma_put_session, put_session, put_user, replace_user, session_user, sessions_view,
    sessions_wf, store_session, store_user, username_taken_by_other, users_wf,
};
use crate::auth::models::{register_request_outcome, LoginRequest, RegisterRequest};
use crate::auth::{failure_of, AuthError, AuthFailure};
use crate::models::User;
use crate::text::owned;
use crate::utils::crypto::{
    bcrypt_hash_well_formed, bcrypt_matches, hash_password, uuid_text, verify_password, CryptoError,
};
use crate::utils::{strict_password_spec, username_outcome, valid_email_spec};

verus! {

broadcast use vstd::string::group_string_axioms;

/// The message of a refused strict password.
pub open spec fn weak_password_message() -> Seq<char> {
    "Password must be at least 8 characters and include upper, lower, number, and symbol"@
}

/// Why a registration is refused before any hashing, if it is.
pub open spec fn register_refusal(users: Seq<User>, req: RegisterRequest) -> Option<AuthFailure> {
    if register_request_outcome(req) is Err {
        Some(AuthFailure::PasswordValidation(register_request_outcome(req)->Err_0))
    } else if username_outcome(req.username@) is Err {
        Some(AuthFailure::PasswordValidation(username_outcome(req.username@)->Err_0))
    } else if !valid_email_spec(req.email@) {
        Some(AuthFailure::PasswordValidation("Invalid email format"@))
    } else if !strict_password_spec(req.password@) {
        Some(AuthFailure::PasswordValidation(weak_password_message()))
    } else if has_username(users, req.username@) {
        Some(AuthFailure::UserAlreadyExists)
    } else if has_email(users, req.email@) {
        Some(AuthFailure::UserAlreadyExists)
    } else {
        None
    }
}

/// `u` is the account made for `req`: same name and e-mail, a bcrypt hash
/// of the password, a fresh random id, never logged in, reputation zero.
pub open spec fn registered_for(u: User, req: RegisterRequest) -> bool {
    &&& u.username@ == req.username@
    &&& u.email@ == req.email@
    &&& bcrypt_hash_well_formed(u.password_hash@)
    &&& bcrypt_matches(req.password@, u.password_hash@)
    &&& uuid_text(u.id@)
    &&& u.last_login is None
    &&& u.reputation_score == 0
}

/// How a login attempt is judged.
pub enum LoginVerdict {
    UnknownEmail,
    MalformedHash,
    WrongPassword,
    Accepted,
}

/// The verdict on logging in with `email` and `password`.
pub open spec fn login_verdict(users: Seq<User>, email: Seq<char>, password: Seq<char>) -> LoginVerdict {
    if !has_email(users, email) {
        LoginVerdict::UnknownEmail
    } else {
        let u = users[email_index(users, email)];
        if !bcrypt_hash_well_formed(u.password_hash@) {
            LoginVerdict::MalformedHash
        } else if !bcrypt_matches(password, u.password_hash@) {
            LoginVerdict::WrongPassword
        } else {
            LoginVerdict::Accepted
        }
    }
}

/// The session token a login opens for an account.
pub open spec fn login_token(id: Seq<char>) -> Seq<char> {
    "session_"@ + id
}

/// `v` is `u` with a login recorded.
pub open spec fn logged_in_from(v: User, u: User) -> bool {
    &&& v.id == u.id
    &&& v.username == u.username
    &&& v.email == u.email
    &&& v.password_hash == u.password_hash
    &&& v.created_at == u.created_at
    &&& v.reputation_score == u.reputation_score
    &&& v.last_login is Some
}

/// The table and outcome of a profile update (see `update_profile`).
pub open spec fn profile_update(
    users: Seq<User>,
    user_id: Seq<char>,
    username: Option<String>,
    email: Option<String>,
    score: Option<i32>,
) -> (Seq<User>, Result<User, AuthFailure>) {
    if !has_id(users, user_id) {
        (users, Err(AuthFailure::Unauthorized))
    } else {
        let i = id_index(users, user_id);
        let step1: (Seq<User>, Option<AuthFailure>) = match username {
            None => (users, None),
            Some(n) => if username_outcome(n@) is Err {
                (users, Some(AuthFailure::PasswordValidation(username_outcome(n@)->Err_0)))
            } else if username_taken_by_other(users, n@, i) {
                (users, Some(AuthFailure::UserAlreadyExists))
            } else {
                (users.update(i, User { username: n, ..users[i] }), None)
            },
        };
        if step1.1 is Some {
            (step1.0, Err(step1.1->Some_0))
        } else {
            let s1 = step1.0;
            let step2: (Seq<User>, Option<AuthFailure>) = match email {
                None => (s1, None),
                Some(e) => if !valid_email_spec(e@) {
                    (s1, Some(AuthFailure::PasswordValidation("Invalid email format"@)))
                } else if email_taken_by_other(s1, e@, i) {
                    (s1, Some(AuthFailure::UserAlreadyExists))
                } else {
                    (s1.update(i, User { email: e, ..s1[i] }), None)
                },
            };
            if step2.1 is Some {
                (step2.0, Err(step2.1->Some_0))
            } else {
                let s2 = step2.0;
                let s3 = match score {
                    None => s2,
                    Some(r) => s2.update(i, User { reputation_score: r, ..s2[i] }),
                };
                (s3, Ok(s3[i]))
            }
        }
    }
}

/// Text of a hashing failure.
fn crypto_error_text(e: CryptoError) -> (r: String)
    ensures
        e matches CryptoError::Hashing(m) && r == m,
{
    match e {
        CryptoError::Hashing(m) => m,
    }
}

/// Accounts and their open sessions.
pub struct AuthManager {
    users: Vec<User>,
    sessions: Vec<(String, String)>,
}

impl AuthManager {
    /// The accounts.
    pub closed spec fn users(&self) -> Seq<User> {
        self.users@
    }

    /// The open sessions: token and user id.
    pub closed spec fn sessions(&self) -> Seq<(Seq<char>, Seq<char>)> {
        sessions_view(self.sessions@)
    }

    /// Distinct ids, user names, e-mails and session tokens.
    pub open spec fn wf(&self) -> bool {
        users_wf(self.users()) && sessions_wf(self.sessions())
    }

    /// No accounts and no sessions.
    pub fn new() -> (r: Self)
        ensures
            r.wf(),
            r.users().len() == 0,
            r.sessions().len() == 0,
    {
        let r = AuthManager { users: Vec::new(), sessions: Vec::new() };
        assert(r.sessions() =~= Seq::<(Seq<char>, Seq<char>)>::empty());
        r
    }

    /// Register an account. The request must pass the form checks, the
    /// strict user-name, e-mail and password rules, and use a free user name
    /// and e-mail; the password is stored as a bcrypt hash.
    pub fn register(&mut self, request: RegisterRequest) -> (r: Result<User, AuthError>)
        requires
            old(self).wf(),
        ensures
            final(self).wf(),
            final(self).sessions() == old(self).sessions(),
            register_refusal(old(self).users(), request) matches Some(f) ==> (r matches Err(e)
                && failure_of(e) == f),
            r is Err ==> final(self).users() == old(self).users(),
            register_refusal(old(self).users(), request) is None && r is Err ==> (r matches Err(e)
                && e is Database),
            r matches Ok(u) ==> register_refusal(old(self).users(), request) is None && registered_for(
                u,
                request,
            ) && final(self).users() == put_user(old(self).users(), u),
    {
        match request.validate() {
            Err(m) => {
                return Err(AuthError::PasswordValidation(m));
            },
            Ok(()) => {},
        }
        match crate::utils::validate_username(request.username.as_str()) {
            Err(m) => {
                return Err(AuthError::PasswordValidation(m));
            },
            Ok(()) => {},
        }
        if !crate::utils::validate_email(request.email.as_str()) {
            return Err(AuthError::PasswordValidation(owned("Invalid email format")));
        }
        if !crate::utils::validate_password(request.password.as_str()) {
            return Err(
                AuthError::PasswordValidation(
                    owned(
                        "Password must be at least 8 characters and include upper, lower, number, and symbol",
                    ),
                ),
            );
        }
        if find_username(&self.users, request.username.as_str()).is_some() {
            return Err(AuthError::UserAlreadyExists);
        }
        if find_email(&self.users, request.email.as_str()).is_some() {
            return Err(AuthError::UserAlreadyExists);
        }
        let password_hash = match hash_password(request.password.as_str()) {
            Ok(h) => h,
            Err(e) => {
                return Err(AuthError::Database(crypto_error_text(e)));
            },
        };
        let ghost req = request;
        let user = User::new(request.username, request.email, password_hash);
        store_user(&mut self.users, user.duplicate());
        Ok(user)
    }

    /// Log in with e-mail and password. A known e-mail with the right
    /// password records the login and opens the session `session_<id>`.
    pub fn login(&mut self, request: LoginRequest) -> (r: Result<User, AuthError>)
        requires
            old(self).wf(),
        ensures
            final(self).wf(),
            login_verdict(old(self).users(), request.email@, request.password@) is UnknownEmail
                ==> (r matches Err(e) && e is InvalidCredentials),
            login_verdict(old(self).users(), request.email@, request.password@) is WrongPassword
                ==> (r matches Err(e) && e is InvalidCredentials),
            login_verdict(old(self).users(), request.email@, request.password@) is MalformedHash
                ==> (r matches Err(e) && e is Database),
            r is Err ==> final(self).users() == old(self).users() && final(self).sessions() == old(
                self,
            ).sessions(),
            login_verdict(old(self).users(), request.email@, request.password@) is Accepted ==> (
            r matches Ok(v) && ({
                let i = email_index(old(self).users(), request.email@);
                &&& logged_in_from(v, old(self).users()[i])
                &&& final(self).users() == old(self).users().update(i, v)
                &&& final(self).sessions() == put_session(
                    old(self).sessions(),
                    login_token(v.id@),
                    v.id@,
                )
            })),
    {
        let i = match find_email(&self.users, request.email.as_str()) {
            None => {
                return Err(AuthError::InvalidCredentials);
            },
            Some(i) => i,
        };
        proof {
            lemma_email_index(self.users@, i as int);
        }
        let valid = match verify_password(request.password.as_str(), self.users[i].password_hash.as_str()) {
            Ok(b) => b,
            Err(e) => {
                return Err(AuthError::Database(crypto_error_text(e)));
            },
        };
        if !valid {
            return Err(AuthError::InvalidCredentials);
        }
        let mut user = self.users[i].duplicate();
        user.update_last_login();
        let ghost before = self.users@;
        proof {
            assert forall|j: int| 0 <= j < before.len() && j != i implies #[trigger] before[j].username@
                != user.username@ by {
                assert(before[j].id@ != before[i as int].id@);
            }
            assert forall|j: int| 0 <= j < before.len() && j != i implies #[trigger] before[j].email@
                != user.email@ by {
                assert(before[j].id@ != before[i as int].id@);
            }
        }
        replace_user(&mut self.users, i, user.duplicate());
        let mut token = owned("session_");
        token.append(user.id.as_str());
        store_session(&mut self.sessions, token, user.id.clone());
        Ok(user)
    }

    /// The account with this id, if any.
    pub fn get_user_by_id(&self, user_id: &str) -> (r: Result<Option<User>, AuthError>)
        requires
            self.wf(),
        ensures
            has_id(self.users(), user_id@) ==> r == Ok::<Option<User>, AuthError>(
                Some(self.users()[id_index(self.users(), user_id@)]),
            ),
            !has_id(self.users(), user_id@) ==> r == Ok::<Option<User>, AuthError>(None),
    {
        match find_id(&self.users, user_id) {
            Some(i) => {
                proof {
                    lemma_id_index(self.users@, i as int);
                }
                Ok(Some(self.users[i].duplicate()))
            },
            None => Ok(None),
        }
    }

    /// Change the user name, e-mail and reputation of an account. Each given
    /// field is checked and applied in that order; a refused field stops the
    /// update, and the fields applied before it stay applied.
    pub fn update_profile(
        &mut self,
        user_id: &str,
        username: Option<String>,
        email: Option<String>,
        reputation_score: Option<i32>,
    ) -> (r: Result<User, AuthError>)
        requires
            old(self).wf(),
        ensures
            final(self).wf(),
            final(self).sessions() == old(self).sessions(),
            final(self).users() == profile_update(
                old(self).users(),
                user_id@,
                username,
                email,
                reputation_score,
            ).0,
            match profile_update(old(self).users(), user_id@, username, email, reputation_score).1 {
                Ok(u) => r == Ok::<User, AuthError>(u),
                Err(f) => r matches Err(e) && failure_of(e) == f,
            },
    {
        let ghost u0 = self.users@;
        let i = match find_id(&self.users, user_id) {
            None => {
                return Err(AuthError::Unauthorized);
            },
            Some(i) => i,
        };
        proof {
            lemma_id_index(u0, i as int);
        }
        match username {
            None => {},
            Some(new_username) => {
                match crate::utils::validate_username(new_username.as_str()) {
                    Err(m) => {
                        return Err(AuthError::PasswordValidation(m));
                    },
                    Ok(()) => {},
                }
                match find_username(&self.users, new_username.as_str()) {
                    Some(j) => {
                        if j != i {
                            assert(username_taken_by_other(u0, new_username@, i as int));
                            return Err(AuthError::UserAlreadyExists);
                        }
                    },
                    None => {},
                }
                proof {
                    if username_taken_by_other(u0, new_username@, i as int) {
                        let j = choose|j: int|
                            0 <= j < u0.len() && j != i && #[trigger] u0[j].username@ == new_username@;
                        assert(u0[j].id@ != u0[i as int].id@);
                    }
                }
                let old_user = self.users[i].duplicate();
                let updated = User { username: new_username, ..old_user };
                proof {
                    assert forall|j: int| 0 <= j < u0.len() && j != i implies #[trigger] u0[j].email@
                        != updated.email@ by {
                        assert(u0[j].id@ != u0[i as int].id@);
                    }
                }
                replace_user(&mut self.users, i, updated);
            },
        }
        let ghost u1 = self.users@;
        match email {
            None => {},
            Some(new_email) => {
                if !crate::utils::validate_email(new_email.as_str()) {
                    return Err(AuthError::PasswordValidation(owned("Invalid email format")));
                }
                match find_email(&self.users, new_email.as_str()) {
                    Some(j) => {
                        if j != i {
                            assert(email_taken_by_other(u1, new_email@, i as int));
                            return Err(AuthError::UserAlreadyExists);
                        }
                    },
                    None => {},
                }
                proof {
                    if email_taken_by_other(u1, new_email@, i as int) {
                        let j = choose|j: int|
                            0 <= j < u1.len() && j != i && #[trigger] u1[j].email@ == new_email@;
                        assert(u1[j].id@ != u1[i as int].id@);
                    }
                }
                let old_user = self.users[i].duplicate();
                let updated = User { email: new_email, ..old_user };
                proof {
                    assert forall|j: int| 0 <= j < u1.len() && j != i implies #[trigger] u1[j].username@
                        != updated.username@ by {
                        assert(u1[j].id@ != u1[i as int].id@);
                    }
                }
                replace_user(&mut self.users, i, updated);
            },
        }
        match reputation_score {
            None => {},
            Some(score) => {
                let old_user = self.users[i].duplicate();
                let updated = User { reputation_score: score, ..old_user };
                let ghost u2 = self.users@;
                proof {
                    assert forall|j: int| 0 <= j < u2.len() && j != i implies #[trigger] u2[j].username@
                        != updated.username@ by {
                        assert(u2[j].id@ != u2[i as int].id@);
                    }
                    assert forall|j: int| 0 <= j < u2.len() && j != i implies #[trigger] u2[j].email@
                        != updated.email@ by {
                        assert(u2[j].id@ != u2[i as int].id@);
                    }
                }
                replace_user(&mut self.users, i, updated);
            },
        }
        Ok(self.users[i].duplicate())
    }

    /// Whether a session with this token is open.
    pub fn validate_session(&self, session_id: &str) -> (r: Result<bool, AuthError>)
        ensures
            r == Ok::<bool, AuthError>(has_session(self.sessions(), session_id@)),
    {
        let found = find_session(&self.sessions, session_id);
        proof {
            if let Some(i) = found {
                assert(self.sessions()[i as int].0 == session_id@);
            }
        }
        Ok(found.is_some())
    }

    /// Record a login time for an account; an unknown id is refused.
    pub fn update_last_login(&mut self, user_id: &str) -> (r: Result<(), AuthError>)
        requires
            old(self).wf(),
        ensures
            final(self).wf(),
            final(self).sessions() == old(self).sessions(),
            !has_id(old(self).users(), user_id@) ==> (r matches Err(e) && e is Unauthorized)
                && final(self).users() == old(self).users(),
            has_id(old(self).users(), user_id@) ==> r is Ok && ({
                let i = id_index(old(self).users(), user_id@);
                &&& final(self).users().len() == old(self).users().len()
                &&& logged_in_from(final(self).users()[i], old(self).users()[i])
                &&& forall|j: int|
                    0 <= j < old(self).users().len() && j != i ==> final(self).users()[j] == old(
                        self,
                    ).users()[j]
            }),
    {
        let i = match find_id(&self.users, user_id) {
            None => {
                return Err(AuthError::Unauthorized);
            },
            Some(i) => i,
        };
        proof {
            lemma_id_index(self.users@, i as int);
        }
        let mut user = self.users[i].duplicate();
        user.update_last_login();
        let ghost before = self.users@;
        proof {
            assert forall|j: int| 0 <= j < before.len() && j != i implies #[trigger] before[j].username@
                != user.username@ by {
                assert(before[j].id@ != before[i as int].id@);
            }
            assert forall|j: int| 0 <= j < before.len() && j != i implies #[trigger] before[j].email@
                != user.email@ by {
                assert(before[j].id@ != before[i as int].id@);
            }
        }
        replace_user(&mut self.users, i, user);
        Ok(())
    }
}

impl Default for AuthManager {
    fn default() -> (r: Self)
        ensures
            r.wf(),
            r.users().len() == 0,
            r.sessions().len() == 0,
    {
        Self::new()
    }
}

/// What registration promises login: an account made for a request, stored
/// in a table that had neither its user name nor its e-mail, is found by
/// that e-mail and accepts the registered password.
pub proof fn law_registered_account_accepts_login(users: Seq<User>, u: User, req: RegisterRequest)
    requires
        users_wf(users),
        !has_username(users, req.username@),
        !has_email(users, req.email@),
        registered_for(u, req),
    ensures
        users_wf(put_user(users, u)),
        login_verdict(put_user(users, u), req.email@, req.password@) is Accepted,
        put_user(users, u)[email_index(put_user(users, u), req.email@)] == u,
{
    let t = put_user(users, u);
    let p = put_position(users, u);
    assert forall|j: int| 0 <= j < users.len() && #[trigger] users[j].id@ != u.id@ implies users[j].username@
        != u.username@ && users[j].email@ != u.email@ by {
        assert(users[j].username@ == users[j].username@);
        assert(users[j].email@ == users[j].email@);
    }
    lemma_put_user(users, u);
    lemma_email_index(t, p);
}

/// A successful login opens the session `session_<id>` bound to that account.
pub proof fn law_login_opens_session(sessions: Seq<(Seq<char>, Seq<char>)>, id: Seq<char>)
    requires
        sessions_wf(sessions),
    ensures
        has_session(put_session(sessions, login_token(id), id), login_token(id)),
        session_user(put_session(sessions, login_token(id), id), login_token(id)) == id,
{
    lemma_put_session(sessions, login_token(id), id);
}

} // verus!
