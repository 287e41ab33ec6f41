//! The user service: registration, login with sessions, profiles and
//! passwords over the in-memory account table.
//!
//! Passwords are stored as `hashed_<password>`; a login opens a session
//! whose token is `session_` followed by a number drawn from the clock.
use std::hash::{Hash, Hasher};
use vstd::prelude::*;
use crate::accounts::{
    drop_session, email_index, find_email, find_id, find_session, find_username, has_email, has_id,
    has_session, has_username, id_index, lemma_email_index, lemma_id_index, lemma_put_session,
    lemma_put_user, lemma_username_index, put_session, put_user, remove_session, replace_user,
    session_index, session_user, sessions_view, sessions_wf, store_session, store_user,
    username_index, users_wf,
};
use crate::models::User;
use crate::services::{service_failure_of, ServiceError, ServiceFailure};
use crate::text::{
    all_whitespace, byte_len, chars_of, contains_seq, has_char, is_alphanumeric, is_blank, owned,
    str_contains, str_eq, to_lowercase, unicode_alphanumeric, unicode_to_lowercase, utf8_len,
};
use crate::utils::numbers::{nat_decimal, u64_decimal};

verus! {

broadcast use vstd::string::group_string_axioms;

/// The service's user-name rule, with the message of the first failing check.
pub open spec fn service_username_outcome(s: Seq<char>) -> Result<(), Seq<char>> {
    if all_whitespace(s) {
        Err("Username cannot be empty"@)
    } else if utf8_len(s) < 3 {
        Err("Username must be at least 3 characters"@)
    } else if utf8_len(s) > 30 {
        Err("Username too long"@)
    } else if !(forall|i: int| 0 <= i < s.len() ==> unicode_alphanumeric(#[trigger] s[i]) || s[i] == '_') {
        Err("Username can only contain letters, numbers, and underscores"@)
    } else {
        Ok(())
    }
}

/// The service's e-mail rule: not blank, and holding both `@` and `.`.
pub open spec fn service_email_outcome(s: Seq<char>) -> Result<(), Seq<char>> {
    if all_whitespace(s) {
        Err("Email cannot be empty"@)
    } else if !s.contains('@') || !s.contains('.') {
        Err("Invalid email format"@)
    } else {
        Ok(())
    }
}

/// The service's password rule: 6 to 100 bytes.
pub open spec fn service_password_outcome(s: Seq<char>) -> Result<(), Seq<char>> {
    if utf8_len(s) < 6 {
        Err("Password must be at least 6 characters"@)
    } else if utf8_len(s) > 100 {
        Err("Password too long"@)
    } else {
        Ok(())
    }
}

/// How the service stores a password.
pub open spec fn stored_password(p: Seq<char>) -> Seq<char> {
    "hashed_"@ + p
}

/// Why a registration is refused, if it is.
pub open spec fn service_register_refusal(
    users: Seq<User>,
    username: Seq<char>,
    email: Seq<char>,
    password: Seq<char>,
) -> Option<ServiceFailure> {
    if service_username_outcome(username) is Err {
        Some(ServiceFailure::ValidationError(service_username_outcome(username)->Err_0))
    } else if service_email_outcome(email) is Err {
        Some(ServiceFailure::ValidationError(service_email_outcome(email)->Err_0))
    } else if service_password_outcome(password) is Err {
        Some(ServiceFailure::ValidationError(service_password_outcome(password)->Err_0))
    } else if has_username(users, username) {
        Some(ServiceFailure::BusinessRuleViolation("Username already exists"@))
    } else if has_email(users, email) {
        Some(ServiceFailure::BusinessRuleViolation("Email already exists"@))
    } else {
        None
    }
}

/// The account a login name designates: by user name first, then by e-mail.
pub open spec fn login_target(users: Seq<User>, key: Seq<char>) -> Option<int> {
    if has_username(users, key) {
        Some(username_index(users, key))
    } else if has_email(users, key) {
        Some(email_index(users, key))
    } else {
        None
    }
}

/// A user name or e-mail is used by an account with another id.
pub open spec fn used_by_other_id(users: Seq<User>, user_id: Seq<char>, name: Seq<char>, by_email: bool) -> bool {
    exists|j: int|
        0 <= j < users.len() && #[trigger] users[j].id@ != user_id && (if by_email {
            users[j].email@ == name
        } else {
            users[j].username@ == name
        })
}

/// Why a profile update is refused, if it is.
pub open spec fn profile_refusal(
    users: Seq<User>,
    user_id: Seq<char>,
    username: Option<String>,
    email: Option<String>,
) -> Option<ServiceFailure> {
    if username is Some && service_username_outcome(username->Some_0@) is Err {
        Some(ServiceFailure::ValidationError(service_username_outcome(username->Some_0@)->Err_0))
    } else if username is Some && used_by_other_id(users, user_id, username->Some_0@, false) {
        Some(ServiceFailure::BusinessRuleViolation("Username already exists"@))
    } else if email is Some && service_email_outcome(email->Some_0@) is Err {
        Some(ServiceFailure::ValidationError(service_email_outcome(email->Some_0@)->Err_0))
    } else if email is Some && used_by_other_id(users, user_id, email->Some_0@, true) {
        Some(ServiceFailure::BusinessRuleViolation("Email already exists"@))
    } else if !has_id(users, user_id) {
        Some(ServiceFailure::NotFound("User "@ + user_id + " not found"@))
    } else {
        None
    }
}

/// The account after a profile update.
pub open spec fn profile_applied(u: User, username: Option<String>, email: Option<String>, score: Option<i32>) -> User {
    User {
        username: match username {
            Some(n) => n,
            None => u.username,
        },
        email: match email {
            Some(e) => e,
            None => u.email,
        },
        reputation_score: match score {
            Some(s) => s,
            None => u.reputation_score,
        },
        ..u
    }
}

/// The user name or e-mail, lower-cased, contains the lower-cased query.
pub open spec fn user_matches_query(u: User, q: Seq<char>) -> bool {
    contains_seq(unicode_to_lowercase(u.username@), q) || contains_seq(unicode_to_lowercase(u.email@), q)
}

/// The accounts matching a lower-cased query, in table order.
pub open spec fn matching_users(users: Seq<User>, q: Seq<char>) -> Seq<User>
    decreases users.len(),
{
    if users.len() == 0 {
        Seq::empty()
    } else {
        let r = matching_users(users.drop_last(), q);
        if user_matches_query(users.last(), q) {
            r.push(users.last())
        } else {
            r
        }
    }
}

/// Counts of accounts and sessions, and the sum of reputations.
#[derive(Debug, Clone, Copy)]
pub struct UserStats {
    pub total_users: usize,
    pub active_sessions: usize,
    pub total_reputation: i64,
}

/// Sum of the reputation scores.
pub open spec fn reputation_sum(users: Seq<User>) -> int
    decreases users.len(),
{
    if users.len() == 0 {
        0
    } else {
        reputation_sum(users.drop_last()) + users.last().reputation_score
    }
}

/// A session with the account it belongs to.
#[derive(Debug)]
pub struct SessionInfo {
    pub session_token: String,
    pub user_id: String,
    pub username: String,
}

/// For each session whose account exists, in session order: token, user id
/// and user name.
pub open spec fn session_infos(s: Seq<(Seq<char>, Seq<char>)>, users: Seq<User>) -> Seq<
    (Seq<char>, Seq<char>, Seq<char>),
>
    decreases s.len(),
{
    if s.len() == 0 {
        Seq::empty()
    } else {
        let r = session_infos(s.drop_last(), users);
        let (t, uid) = s.last();
        if has_id(users, uid) {
            r.push((t, uid, users[id_index(users, uid)].username@))
        } else {
            r
        }
    }
}

/// Calls `chrono::Utc::now().timestamp_nanos_opt()`: the current time in
/// nanoseconds since 1970, `None` outside the range of `i64`. The reading is
/// the machine's clock, so nothing is claimed of it.
#[verifier::external_body]
fn clock_nanos() -> Option<i64> {
    chrono::Utc::now().timestamp_nanos_opt()
}

/// Calls `Hash::hash` to feed `n` to the hasher. The bytes it writes are
/// those of `n` in the machine's byte order, so nothing is claimed of them.
#[verifier::external_body]
fn hash_i64(n: i64, hasher: &mut std::collections::hash_map::DefaultHasher) {
    n.hash(hasher)
}

/// Users, their open sessions, and the rules of the service.
pub struct UserService {
    users: Vec<User>,
    sessions: Vec<(String, String)>,
}

/// Append the characters of `b` to a string.
fn push_str_chars(s: &mut String, b: &Vec<char>)
    ensures
        final(s)@ == old(s)@ + b@,
{
    let mut i: usize = 0;
    while i < b.len()
        invariant
            i <= b.len(),
            s@ == old(s)@ + b@.subrange(0, i as int),
        decreases b.len() - i,
    {
        crate::text::push_char(s, b[i]);
        i = i + 1;
    }
    assert(b@.subrange(0, b@.len() as int) =~= b@);
}

impl UserService {
    /// The accounts.
    pub closed spec fn users(&self) -> Seq<User> {
        self.users@
    }

    /// The open sessions: token and user id.
    pub closed spec fn sessions(&self) -> Seq<(Seq<char>, Seq<char>)> {
        sessions_view(self.sessions@)
    }

    /// Distinct ids, user names, e-mails and session tokens.
    pub open spec fn wf(&self) -> bool {
        users_wf(self.users()) && sessions_wf(self.sessions())
    }

    /// No accounts and no sessions.
    pub fn new() -> (r: Self)
        ensures
            r.wf(),
            r.users().len() == 0,
            r.sessions().len() == 0,
    {
        let r = UserService { users: Vec::new(), sessions: Vec::new() };
        assert(r.sessions() =~= Seq::<(Seq<char>, Seq<char>)>::empty());
        r
    }

    fn validate_username(&self, username: &str) -> (r: Result<(), ServiceError>)
        ensures
            match service_username_outcome(username@) {
                Ok(()) => r is Ok,
                Err(m) => r matches Err(e) && service_failure_of(e) == ServiceFailure::ValidationError(m),
            },
    {
        if is_blank(username) {
            return Err(ServiceError::ValidationError(owned("Username cannot be empty")));
        }
        let n = byte_len(username);
        if n < 3 {
            return Err(ServiceError::ValidationError(owned("Username must be at least 3 characters")));
        }
        if n > 30 {
            return Err(ServiceError::ValidationError(owned("Username too long")));
        }
        let cs = chars_of(username);
        let mut i: usize = 0;
        while i < cs.len()
            invariant
                cs@ == username@,
                i <= cs.len(),
                !all_whitespace(username@),
                3 <= utf8_len(username@) <= 30,
                forall|j: int| 0 <= j < i ==> unicode_alphanumeric(#[trigger] cs@[j]) || cs@[j] == '_',
            decreases cs.len() - i,
        {
            if !(is_alphanumeric(cs[i]) || cs[i] == '_') {
                assert(!(unicode_alphanumeric(username@[i as int]) || username@[i as int] == '_'));
                return Err(
                    ServiceError::ValidationError(
                        owned("Username can only contain letters, numbers, and underscores"),
                    ),
                );
            }
            i = i + 1;
        }
        Ok(())
    }

    fn validate_email(&self, email: &str) -> (r: Result<(), ServiceError>)
        ensures
            match service_email_outcome(email@) {
                Ok(()) => r is Ok,
                Err(m) => r matches Err(e) && service_failure_of(e) == ServiceFailure::ValidationError(m),
            },
    {
        if is_blank(email) {
            return Err(ServiceError::ValidationError(owned("Email cannot be empty")));
        }
        let cs = chars_of(email);
        if !has_char(&cs, '@') || !has_char(&cs, '.') {
            return Err(ServiceError::ValidationError(owned("Invalid email format")));
        }
        Ok(())
    }

    fn validate_password(&self, password: &str) -> (r: Result<(), ServiceError>)
        ensures
            match service_password_outcome(password@) {
                Ok(()) => r is Ok,
                Err(m) => r matches Err(e) && service_failure_of(e) == ServiceFailure::ValidationError(m),
            },
    {
        let n = byte_len(password);
        if n < 6 {
            return Err(ServiceError::ValidationError(owned("Password must be at least 6 characters")));
        }
        if n > 100 {
            return Err(ServiceError::ValidationError(owned("Password too long")));
        }
        Ok(())
    }

    fn hash_password(&self, password: &str) -> (r: String)
        ensures
            r@ == stored_password(password@),
    {
        let mut s = owned("hashed_");
        s.append(password);
        s
    }

    fn verify_password(&self, password: &str, hash: &str) -> (b: bool)
        ensures
            b == (hash@ == stored_password(password@)),
    {
        let expected = self.hash_password(password);
        str_eq(hash, expected.as_str())
    }

    fn create_session_token(&self) -> (r: String)
        ensures
            exists|n: u64| r@ == "session_"@ + nat_decimal(n as nat),
    {
        let nanos = match clock_nanos() {
            Some(t) => t,
            None => 0,
        };
        let mut hasher = std::collections::hash_map::DefaultHasher::new();
        hash_i64(nanos, &mut hasher);
        let n = hasher.finish();
        let digits = u64_decimal(n);
        let mut s = owned("session_");
        push_str_chars(&mut s, &digits);
        s
    }

    /// Register an account: the user name, e-mail and password must pass
    /// the service's rules and the user name and e-mail must be free.
    pub fn register_user(&mut self, username: String, email: String, password: String) -> (r: Result<User, ServiceError>)
        requires
            old(self).wf(),
        ensures
            final(self).wf(),
            final(self).sessions() == old(self).sessions(),
            service_register_refusal(old(self).users(), username@, email@, password@) matches Some(f)
                ==> (r matches Err(e) && service_failure_of(e) == f) && final(self).users() == old(
                self,
            ).users(),
            service_register_refusal(old(self).users(), username@, email@, password@) is None ==> (
            r matches Ok(u) && u.username@ == username@ && u.email@ == email@ && u.password_hash@
                == stored_password(password@) && u.last_login is None && u.reputation_score == 0
                && final(self).users() == put_user(old(self).users(), u)),
    {
        self.validate_username(username.as_str())?;
        self.validate_email(email.as_str())?;
        self.validate_password(password.as_str())?;
        if find_username(&self.users, username.as_str()).is_some() {
            return Err(ServiceError::BusinessRuleViolation(owned("Username already exists")));
        }
        if find_email(&self.users, email.as_str()).is_some() {
            return Err(ServiceError::BusinessRuleViolation(owned("Email already exists")));
        }
        let hash = self.hash_password(password.as_str());
        let user = User::new(username, email, hash);
        proof {
            let u = self.users@;
            assert forall|j: int| 0 <= j < u.len() && #[trigger] u[j].id@ != user.id@ implies u[j].username@
                != user.username@ && u[j].email@ != user.email@ by {
                assert(u[j].username@ == u[j].username@);
                assert(u[j].email@ == u[j].email@);
            }
        }
        store_user(&mut self.users, user.duplicate());
        Ok(user)
    }

    /// Log in with a user name (tried first) or e-mail and a password; on
    /// success the login time is recorded and a new session is opened.
    pub fn login(&mut self, username_or_email: String, password: String) -> (r: Result<(User, String), ServiceError>)
        requires
            old(self).wf(),
        ensures
            final(self).wf(),
            login_target(old(self).users(), username_or_email@) is None ==> (r matches Err(e)
                && service_failure_of(e) == ServiceFailure::NotFound("User not found"@)),
            login_target(old(self).users(), username_or_email@) matches Some(i) && old(self).users()[i].password_hash@
                != stored_password(password@) ==> (r matches Err(e) && service_failure_of(e)
                == ServiceFailure::PermissionDenied("Invalid password"@)),
            r is Err ==> final(self).users() == old(self).users() && final(self).sessions() == old(
                self,
            ).sessions(),
            login_target(old(self).users(), username_or_email@) matches Some(i) ==> (old(self).users()[i].password_hash@
                == stored_password(password@) ==> (r matches Ok(p) && ({
                let (v, token) = p;
                &&& v.id == old(self).users()[i].id
                &&& v.username == old(self).users()[i].username
                &&& v.email == old(self).users()[i].email
                &&& v.password_hash == old(self).users()[i].password_hash
                &&& v.created_at == old(self).users()[i].created_at
                &&& v.reputation_score == old(self).users()[i].reputation_score
                &&& v.last_login is Some
                &&& (exists|n: u64| token@ == "session_"@ + nat_decimal(n as nat))
                &&& final(self).users() == old(self).users().update(i, v)
                &&& final(self).sessions() == put_session(old(self).sessions(), token@, v.id@)
            }))),
    {
        let ghost u0 = self.users@;
        let i = match find_username(&self.users, username_or_email.as_str()) {
            Some(i) => {
                proof {
                    lemma_username_index(u0, i as int);
                }
                i
            },
            None => match find_email(&self.users, username_or_email.as_str()) {
                Some(i) => {
                    proof {
                        lemma_email_index(u0, i as int);
                    }
                    i
                },
                None => {
                    return Err(ServiceError::NotFound(owned("User not found")));
                },
            },
        };
        if !self.verify_password(password.as_str(), self.users[i].password_hash.as_str()) {
            return Err(ServiceError::PermissionDenied(owned("Invalid password")));
        }
        let token = self.create_session_token();
        let mut user = self.users[i].duplicate();
        user.update_last_login();
        proof {
            assert forall|j: int| 0 <= j < u0.len() && j != i implies #[trigger] u0[j].username@
                != user.username@ by {
                assert(u0[j].id@ != u0[i as int].id@);
            }
            assert forall|j: int| 0 <= j < u0.len() && j != i implies #[trigger] u0[j].email@
                != user.email@ by {
                assert(u0[j].id@ != u0[i as int].id@);
            }
        }
        replace_user(&mut self.users, i, user.duplicate());
        store_session(&mut self.sessions, token.clone(), user.id.clone());
        Ok((user, token))
    }

    /// Close a session; an unknown token is reported.
    pub fn logout(&mut self, session_token: &str) -> (r: Result<(), ServiceError>)
        requires
            old(self).wf(),
        ensures
            final(self).wf(),
            final(self).users() == old(self).users(),
            final(self).sessions() == drop_session(old(self).sessions(), session_token@),
            has_session(old(self).sessions(), session_token@) ==> r is Ok,
            !has_session(old(self).sessions(), session_token@) ==> (r matches Err(e)
                && service_failure_of(e) == ServiceFailure::NotFound("Invalid session"@)),
    {
        if remove_session(&mut self.sessions, session_token) {
            Ok(())
        } else {
            Err(ServiceError::NotFound(owned("Invalid session")))
        }
    }

    /// The account of an open session.
    pub fn validate_session(&self, session_token: &str) -> (r: Result<User, ServiceError>)
        requires
            self.wf(),
        ensures
            !has_session(self.sessions(), session_token@) ==> (r matches Err(e) && service_failure_of(e)
                == ServiceFailure::PermissionDenied("Invalid session"@)),
            has_session(self.sessions(), session_token@) && !has_id(
                self.users(),
                session_user(self.sessions(), session_token@),
            ) ==> (r matches Err(e) && service_failure_of(e) == ServiceFailure::NotFound(
                "User not found"@,
            )),
            has_session(self.sessions(), session_token@) && has_id(
                self.users(),
                session_user(self.sessions(), session_token@),
            ) ==> r == Ok::<User, ServiceError>(
                self.users()[id_index(self.users(), session_user(self.sessions(), session_token@))],
            ),
    {
        let k = match find_session(&self.sessions, session_token) {
            None => {
                return Err(ServiceError::PermissionDenied(owned("Invalid session")));
            },
            Some(k) => k,
        };
        proof {
            let sv = self.sessions();
            assert(sv[k as int].0 == session_token@);
            let k2 = session_index(sv, session_token@);
            if k2 != k {
                assert(sv[k2].0 != sv[k as int].0);
            }
        }
        match find_id(&self.users, self.sessions[k].1.as_str()) {
            None => Err(ServiceError::NotFound(owned("User not found"))),
            Some(i) => {
                proof {
                    lemma_id_index(self.users@, i as int);
                }
                Ok(self.users[i].duplicate())
            },
        }
    }

    /// The account with this id.
    pub fn get_user(&self, user_id: &str) -> (r: Result<User, ServiceError>)
        requires
            self.wf(),
        ensures
            has_id(self.users(), user_id@) ==> r == Ok::<User, ServiceError>(
                self.users()[id_index(self.users(), user_id@)],
            ),
            !has_id(self.users(), user_id@) ==> (r matches Err(e) && service_failure_of(e)
                == ServiceFailure::NotFound("User "@ + user_id@ + " not found"@)),
    {
        match find_id(&self.users, user_id) {
            Some(i) => {
                proof {
                    lemma_id_index(self.users@, i as int);
                }
                Ok(self.users[i].duplicate())
            },
            None => Err(ServiceError::NotFound(Self::user_not_found(user_id))),
        }
    }

    fn user_not_found(user_id: &str) -> (r: String)
        ensures
            r@ == "User "@ + user_id@ + " not found"@,
    {
        let mut s = owned("User ");
        s.append(user_id);
        s.append(" not found");
        s
    }

    /// Position of an account other than `user_id` with this user name or e-mail.
    fn find_used_by_other(&self, user_id: &str, name: &str, by_email: bool) -> (b: bool)
        ensures
            b == used_by_other_id(self.users(), user_id@, name@, by_email),
    {
        let mut j: usize = 0;
        while j < self.users.len()
            invariant
                j <= self.users@.len(),
                forall|k: int|
                    0 <= k < j ==> !(#[trigger] self.users@[k].id@ != user_id@ && (if by_email {
                        self.users@[k].email@ == name@
                    } else {
                        self.users@[k].username@ == name@
                    })),
            decreases self.users.len() - j,
        {
            let hit = if by_email {
                str_eq(self.users[j].email.as_str(), name)
            } else {
                str_eq(self.users[j].username.as_str(), name)
            };
            if hit && !str_eq(self.users[j].id.as_str(), user_id) {
                assert(self.users@[j as int].id@ != user_id@);
                return true;
            }
            j = j + 1;
        }
        false
    }

    /// Change user name, e-mail and reputation; every given field is checked
    /// before any is applied.
    pub fn update_user_profile(
        &mut self,
        user_id: &str,
        username: Option<String>,
        email: Option<String>,
        reputation_score: Option<i32>,
    ) -> (r: Result<User, ServiceError>)
        requires
            old(self).wf(),
        ensures
            final(self).wf(),
            final(self).sessions() == old(self).sessions(),
            profile_refusal(old(self).users(), user_id@, username, email) matches Some(f) ==> (r matches Err(
                e,
            ) && service_failure_of(e) == f) && final(self).users() == old(self).users(),
            profile_refusal(old(self).users(), user_id@, username, email) is None ==> ({
                let i = id_index(old(self).users(), user_id@);
                let v = profile_applied(old(self).users()[i], username, email, reputation_score);
                &&& r == Ok::<User, ServiceError>(v)
                &&& final(self).users() == old(self).users().update(i, v)
            }),
    {
        match &username {
            Some(n) => {
                self.validate_username(n.as_str())?;
                if self.find_used_by_other(user_id, n.as_str(), false) {
                    return Err(ServiceError::BusinessRuleViolation(owned("Username already exists")));
                }
            },
            None => {},
        }
        match &email {
            Some(e) => {
                self.validate_email(e.as_str())?;
                if self.find_used_by_other(user_id, e.as_str(), true) {
                    return Err(ServiceError::BusinessRuleViolation(owned("Email already exists")));
                }
            },
            None => {},
        }
        let i = match find_id(&self.users, user_id) {
            Some(i) => i,
            None => {
                return Err(ServiceError::NotFound(Self::user_not_found(user_id)));
            },
        };
        let ghost u0 = self.users@;
        proof {
            lemma_id_index(u0, i as int);
        }
        let old_user = self.users[i].duplicate();
        let updated = User {
            username: match username {
                Some(n) => n,
                None => old_user.username,
            },
            email: match email {
                Some(e) => e,
                None => old_user.email,
            },
            reputation_score: match reputation_score {
                Some(s) => s,
                None => old_user.reputation_score,
            },
            ..old_user
        };
        proof {
            assert forall|j: int| 0 <= j < u0.len() && j != i implies #[trigger] u0[j].username@
                != updated.username@ by {
                assert(u0[j].id@ != u0[i as int].id@);
            }
            assert forall|j: int| 0 <= j < u0.len() && j != i implies #[trigger] u0[j].email@
                != updated.email@ by {
                assert(u0[j].id@ != u0[i as int].id@);
            }
        }
        replace_user(&mut self.users, i, updated.duplicate());
        Ok(updated)
    }

    /// Change a password after checking the new one's length and the old one.
    pub fn change_password(&mut self, user_id: &str, old_password: String, new_password: String) -> (r: Result<(), ServiceError>)
        requires
            old(self).wf(),
        ensures
            final(self).wf(),
            final(self).sessions() == old(self).sessions(),
            service_password_outcome(new_password@) matches Err(m) ==> (r matches Err(e)
                && service_failure_of(e) == ServiceFailure::ValidationError(m)),
            service_password_outcome(new_password@) is Ok && !has_id(old(self).users(), user_id@) ==> (
            r matches Err(e) && service_failure_of(e) == ServiceFailure::NotFound(
                "User "@ + user_id@ + " not found"@,
            )),
            service_password_outcome(new_password@) is Ok && has_id(old(self).users(), user_id@)
                && old(self).users()[id_index(old(self).users(), user_id@)].password_hash@
                != stored_password(old_password@) ==> (r matches Err(e) && service_failure_of(e)
                == ServiceFailure::PermissionDenied("Invalid old password"@)),
            r is Err ==> final(self).users() == old(self).users(),
            r is Ok ==> has_id(old(self).users(), user_id@) && ({
                let i = id_index(old(self).users(), user_id@);
                let u = old(self).users()[i];
                &&& service_password_outcome(new_password@) is Ok
                &&& u.password_hash@ == stored_password(old_password@)
                &&& final(self).users().len() == old(self).users().len()
                &&& final(self).users()[i].password_hash@ == stored_password(new_password@)
                &&& final(self).users()[i].id == u.id
                &&& final(self).users()[i].username == u.username
                &&& final(self).users()[i].email == u.email
                &&& final(self).users()[i].created_at == u.created_at
                &&& final(self).users()[i].last_login == u.last_login
                &&& final(self).users()[i].reputation_score == u.reputation_score
                &&& forall|j: int|
                    0 <= j < old(self).users().len() && j != i ==> final(self).users()[j] == old(
                        self,
                    ).users()[j]
            }),
    {
        self.validate_password(new_password.as_str())?;
        let new_hash = self.hash_password(new_password.as_str());
        let i = match find_id(&self.users, user_id) {
            Some(i) => i,
            None => {
                return Err(ServiceError::NotFound(Self::user_not_found(user_id)));
            },
        };
        let ghost u0 = self.users@;
        proof {
            lemma_id_index(u0, i as int);
        }
        if !self.verify_password(old_password.as_str(), self.users[i].password_hash.as_str()) {
            return Err(ServiceError::PermissionDenied(owned("Invalid old password")));
        }
        let old_user = self.users[i].duplicate();
        let updated = User { password_hash: new_hash, ..old_user };
        proof {
            assert forall|j: int| 0 <= j < u0.len() && j != i implies #[trigger] u0[j].username@
                != updated.username@ by {
                assert(u0[j].id@ != u0[i as int].id@);
            }
            assert forall|j: int| 0 <= j < u0.len() && j != i implies #[trigger] u0[j].email@
                != updated.email@ by {
                assert(u0[j].id@ != u0[i as int].id@);
            }
        }
        replace_user(&mut self.users, i, updated);
        Ok(())
    }

    /// Accounts whose lower-cased user name or e-mail contains the
    /// lower-cased query, in table order.
    pub fn search_users(&self, query: &str) -> (r: Result<Vec<User>, ServiceError>)
        ensures
            r matches Ok(v) && v@ == matching_users(self.users(), unicode_to_lowercase(query@)),
    {
        let q = to_lowercase(query);
        let mut out: Vec<User> = Vec::new();
        let mut i: usize = 0;
        while i < self.users.len()
            invariant
                q@ == unicode_to_lowercase(query@),
                i <= self.users@.len(),
                out@ == matching_users(self.users@.subrange(0, i as int), q@),
            decreases self.users.len() - i,
        {
            let ghost pre = self.users@.subrange(0, i as int);
            assert(self.users@.subrange(0, i + 1).drop_last() =~= pre);
            let name = to_lowercase(self.users[i].username.as_str());
            let mail = to_lowercase(self.users[i].email.as_str());
            if str_contains(name.as_str(), q.as_str()) || str_contains(mail.as_str(), q.as_str()) {
                out.push(self.users[i].duplicate());
            }
            i = i + 1;
        }
        assert(self.users@.subrange(0, self.users@.len() as int) =~= self.users@);
        Ok(out)
    }

    /// Numbers of accounts and sessions, and the sum of reputations.
    pub fn get_user_stats(&self) -> (r: Result<UserStats, ServiceError>)
        requires
            self.users().len() <= 1000000000,
        ensures
            r matches Ok(s) && s.total_users == self.users().len() && s.active_sessions
                == self.sessions().len() && s.total_reputation == reputation_sum(self.users()),
    {
        let mut total: i64 = 0;
        let mut i: usize = 0;
        while i < self.users.len()
            invariant
                self.users@.len() <= 1000000000,
                i <= self.users@.len(),
                total == reputation_sum(self.users@.subrange(0, i as int)),
                -2147483648 * i <= total <= 2147483647 * i,
            decreases self.users.len() - i,
        {
            assert(self.users@.subrange(0, i + 1).drop_last() =~= self.users@.subrange(0, i as int));
            total = total + self.users[i].reputation_score as i64;
            i = i + 1;
        }
        assert(self.users@.subrange(0, self.users@.len() as int) =~= self.users@);
        Ok(UserStats { total_users: self.users.len(), active_sessions: self.sessions.len(), total_reputation: total })
    }

    /// Each session whose account exists, with the account's user name.
    pub fn get_active_sessions(&self) -> (r: Result<Vec<SessionInfo>, ServiceError>)
        requires
            self.wf(),
        ensures
            r matches Ok(v) && v@.map_values(|s: SessionInfo| (s.session_token@, s.user_id@, s.username@))
                == session_infos(self.sessions(), self.users()),
    {
        let mut out: Vec<SessionInfo> = Vec::new();
        let mut k: usize = 0;
        while k < self.sessions.len()
            invariant
                users_wf(self.users@),
                k <= self.sessions@.len(),
                out@.map_values(|s: SessionInfo| (s.session_token@, s.user_id@, s.username@))
                    == session_infos(sessions_view(self.sessions@).subrange(0, k as int), self.users@),
            decreases self.sessions.len() - k,
        {
            let ghost sv = sessions_view(self.sessions@);
            assert(sv.subrange(0, k + 1).drop_last() =~= sv.subrange(0, k as int));
            assert(sv.subrange(0, k + 1).last() == sv[k as int]);
            let ghost before = out@;
            match find_id(&self.users, self.sessions[k].1.as_str()) {
                Some(i) => {
                    proof {
                        lemma_id_index(self.users@, i as int);
                    }
                    out.push(
                        SessionInfo {
                            session_token: self.sessions[k].0.clone(),
                            user_id: self.sessions[k].1.clone(),
                            username: self.users[i].username.clone(),
                        },
                    );
                    assert(out@.map_values(|s: SessionInfo| (s.session_token@, s.user_id@, s.username@))
                        =~= before.map_values(|s: SessionInfo| (s.session_token@, s.user_id@, s.username@)).push(
                        (sv[k as int].0, sv[k as int].1, self.users@[i as int].username@),
                    ));
                },
                None => {},
            }
            k = k + 1;
        }
        assert(sessions_view(self.sessions@).subrange(0, self.sessions@.len() as int) =~= sessions_view(
            self.sessions@,
        ));
        Ok(out)
    }
}

impl Default for UserService {
    fn default() -> (r: Self)
        ensures
            r.wf(),
            r.users().len() == 0,
            r.sessions().len() == 0,
    {
        Self::new()
    }
}

/// What registration promises login: an account registered with a password
/// is found by its user name, and by its e-mail unless that e-mail is some
/// account's user name (user names are tried first).
pub proof fn law_registered_user_can_log_in(users: Seq<User>, u: User, password: Seq<char>)
    requires
        users_wf(users),
        !has_username(users, u.username@),
        !has_email(users, u.email@),
        u.password_hash@ == stored_password(password),
    ensures
        login_target(put_user(users, u), u.username@) matches Some(i) && put_user(users, u)[i] == u
            && put_user(users, u)[i].password_hash@ == stored_password(password),
        !has_username(put_user(users, u), u.email@) ==> (login_target(put_user(users, u), u.email@) matches Some(
            i,
        ) && put_user(users, u)[i] == u),
{
    assert forall|j: int| 0 <= j < users.len() && #[trigger] users[j].id@ != u.id@ implies users[j].username@
        != u.username@ && users[j].email@ != u.email@ by {
        assert(users[j].username@ == users[j].username@);
        assert(users[j].email@ == users[j].email@);
    }
    lemma_put_user(users, u);
    let t = put_user(users, u);
    let p = crate::accounts::put_position(users, u);
    lemma_username_index(t, p);
    lemma_email_index(t, p);
}

/// After a password change exactly the new password is accepted: a login
/// password matches the stored form of the new password if and only if it
/// is the new password (so the old one, when different, is refused).
pub proof fn law_only_new_password_accepted(password: Seq<char>, new_password: Seq<char>)
    ensures
        stored_password(new_password) == stored_password(password) <==> password == new_password,
{
    if stored_password(new_password) == stored_password(password) {
        let k = "hashed_"@.len() as int;
        assert(stored_password(new_password).subrange(k, stored_password(new_password).len() as int)
            =~= new_password);
        assert(stored_password(password).subrange(k, stored_password(password).len() as int) =~= password);
    }
}

} // verus!
