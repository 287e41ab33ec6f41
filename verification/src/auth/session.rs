//! Client-side login sessions with expiry.
//!
//! Times are Unix seconds. A session lasts a day after its last activity,
//! or thirty days when the user asked to be remembered.
use vstd::prelude::*;
use crate::error::now_unix_seconds;
use crate::models::User;
use crate::text::str_eq;
use crate::utils::crypto::{new_uuid_string, uuid_text};

verus! {

broadcast use vstd::string::group_string_axioms;

/// Seconds a session stays valid after its last activity.
pub open spec fn session_lifetime(remember_me: bool) -> int {
    if remember_me {
        2592000
    } else {
        86400
    }
}

/// Integer division rounded toward zero.
pub open spec fn div_toward_zero(a: int, b: int) -> int {
    if a >= 0 {
        a / b
    } else {
        -((-a) / b)
    }
}

/// Whole minutes from `from` to `to` (seconds), rounded toward zero.
pub open spec fn minutes_between(from: int, to: int) -> int {
    div_toward_zero(to - from, 60)
}

/// Whole minutes from `from` to `to`, rounded toward zero.
pub fn whole_minutes_between(from: i64, to: i64) -> (m: i64)
    ensures
        m == minutes_between(from as int, to as int),
{
    let d: i128 = (to as i128) - (from as i128);
    let q: i128 = if d >= 0 {
        d / 60
    } else {
        -((-d) / 60)
    };
    q as i64
}

/// A signed-in user, with the times of login and of the last activity.
#[derive(Debug)]
pub struct UserSession {
    pub user: User,
    pub login_time: i64,
    pub last_activity: i64,
    pub remember_me: bool,
}

impl UserSession {
    /// At time `now` more than the session's lifetime has passed since the
    /// last activity.
    pub open spec fn expired_at(&self, now: int) -> bool {
        now - self.last_activity > session_lifetime(self.remember_me)
    }

    /// A session starting now: login and last activity are the current time.
    pub fn new(user: User, remember_me: bool) -> (r: Self)
        ensures
            r.user == user,
            r.login_time == r.last_activity,
            r.remember_me == remember_me,
    {
        let now = now_unix_seconds();
        UserSession { user, login_time: now, last_activity: now, remember_me }
    }

    /// Record activity at the current time.
    pub fn update_activity(&mut self)
        ensures
            final(self).user == old(self).user,
            final(self).login_time == old(self).login_time,
            final(self).remember_me == old(self).remember_me,
    {
        self.last_activity = now_unix_seconds();
    }

    /// Whether the session has expired at time `now`.
    pub fn is_expired_at(&self, now: i64) -> (b: bool)
        ensures
            b == self.expired_at(now as int),
    {
        let limit: i128 = if self.remember_me {
            2592000
        } else {
            86400
        };
        (now as i128) - (self.last_activity as i128) > limit
    }

    /// Whether the session has expired now.
    pub fn is_expired(&self) -> (b: bool)
        ensures
            exists|now: i64| b == #[trigger] self.expired_at(now as int),
    {
        let now = now_unix_seconds();
        self.is_expired_at(now)
    }

    /// Whole minutes from login to `now`, rounded toward zero.
    pub fn session_duration_minutes_at(&self, now: i64) -> (m: i64)
        ensures
            m == minutes_between(self.login_time as int, now as int),
    {
        whole_minutes_between(self.login_time, now)
    }

    /// Whole minutes from login to now.
    pub fn session_duration_minutes(&self) -> (m: i64)
        ensures
            exists|now: i64| m == minutes_between(self.login_time as int, now as int),
    {
        let now = now_unix_seconds();
        self.session_duration_minutes_at(now)
    }

    /// A copy of this session.
    pub fn duplicate(&self) -> (r: Self)
        ensures
            r == *self,
    {
        UserSession {
            user: self.user.duplicate(),
            login_time: self.login_time,
            last_activity: self.last_activity,
            remember_me: self.remember_me,
        }
    }
}

/// No two entries share an id.
pub open spec fn ids_distinct(s: Seq<(Seq<char>, UserSession)>) -> bool {
    forall|i: int, j: int| 0 <= i < s.len() && 0 <= j < s.len() && i != j ==> #[trigger] s[i].0 != #[trigger] s[j].0
}

/// Some entry has this id.
pub open spec fn has_entry(s: Seq<(Seq<char>, UserSession)>, id: Seq<char>) -> bool {
    exists|i: int| 0 <= i < s.len() && #[trigger] s[i].0 == id
}

/// The position of the entry with this id.
pub open spec fn entry_index(s: Seq<(Seq<char>, UserSession)>, id: Seq<char>) -> int {
    choose|i: int| 0 <= i < s.len() && #[trigger] s[i].0 == id
}

/// The session stored under an id.
pub open spec fn lookup(s: Seq<(Seq<char>, UserSession)>, id: Seq<char>) -> Option<UserSession> {
    if has_entry(s, id) {
        Some(s[entry_index(s, id)].1)
    } else {
        None
    }
}

/// The entries with `v` stored under `id`: in place of the old one, or added last.
pub open spec fn put_entry(s: Seq<(Seq<char>, UserSession)>, id: Seq<char>, v: UserSession) -> Seq<
    (Seq<char>, UserSession),
> {
    if has_entry(s, id) {
        s.update(entry_index(s, id), (id, v))
    } else {
        s.push((id, v))
    }
}

/// The entries without the one stored under `id`.
pub open spec fn drop_entry(s: Seq<(Seq<char>, UserSession)>, id: Seq<char>) -> Seq<(Seq<char>, UserSession)> {
    if has_entry(s, id) {
        s.remove(entry_index(s, id))
    } else {
        s
    }
}

/// The entry has not expired at `now`.
pub open spec fn live_at(now: int) -> spec_fn((Seq<char>, UserSession)) -> bool {
    |e: (Seq<char>, UserSession)| !e.1.expired_at(now)
}

/// The entry belongs to the account `user_id`.
pub open spec fn owned_by(user_id: Seq<char>) -> spec_fn((Seq<char>, UserSession)) -> bool {
    |e: (Seq<char>, UserSession)| e.1.user.id@ == user_id
}

/// The entry belongs to another account than `user_id`.
pub open spec fn not_owned_by(user_id: Seq<char>) -> spec_fn((Seq<char>, UserSession)) -> bool {
    |e: (Seq<char>, UserSession)| e.1.user.id@ != user_id
}

proof fn lemma_filter_keeps_distinct(s: Seq<(Seq<char>, UserSession)>, p: spec_fn((Seq<char>, UserSession)) -> bool)
    requires
        ids_distinct(s),
    ensures
        ids_distinct(s.filter(p)),
    decreases s.len(),
{
    reveal(Seq::filter);
    if s.len() > 0 {
        let t = s.drop_last();
        assert forall|i: int, j: int| 0 <= i < t.len() && 0 <= j < t.len() && i != j implies #[trigger] t[i].0
            != #[trigger] t[j].0 by {
            assert(t[i] == s[i] && t[j] == s[j]);
        }
        lemma_filter_keeps_distinct(t, p);
        let f = t.filter(p);
        if p(s.last()) {
            let g = f.push(s.last());
            assert forall|i: int, j: int| 0 <= i < g.len() && 0 <= j < g.len() && i != j implies #[trigger] g[i].0
                != #[trigger] g[j].0 by {
                if i < f.len() && j < f.len() {
                    assert(g[i] == f[i] && g[j] == f[j]);
                } else {
                    let a = if i < f.len() { i } else { j };
                    assert(g[a] == f[a]);
                    assert(f.contains(f[a]));
                    t.lemma_filter_contains_rev(p, f[a]);
                    let m = choose|m: int| 0 <= m < t.len() && t[m] == f[a];
                    assert(s[m] == t[m]);
                    assert(s[s.len() - 1].0 != s[m].0);
                }
            }
        }
    }
}

/// The session with its last activity at `t`.
pub open spec fn with_activity(s: UserSession, t: i64) -> UserSession {
    UserSession { last_activity: t, ..s }
}

/// The entries after validating `id` at `now`: unchanged when there is no
/// such session, without it when it has expired, else with its activity
/// recorded at `now`.
pub open spec fn validated_entries(v: Seq<(Seq<char>, UserSession)>, id: Seq<char>, now: i64) -> Seq<
    (Seq<char>, UserSession),
> {
    match lookup(v, id) {
        None => v,
        Some(s) => if s.expired_at(now as int) {
            drop_entry(v, id)
        } else {
            v.update(entry_index(v, id), (id, with_activity(s, now)))
        },
    }
}

/// The user that validating `id` at `now` gives: that of a live session.
pub open spec fn validated_user(v: Seq<(Seq<char>, UserSession)>, id: Seq<char>, now: i64) -> Option<User> {
    match lookup(v, id) {
        Some(s) => if s.expired_at(now as int) {
            None
        } else {
            Some(s.user)
        },
        None => None,
    }
}

/// The signed-in sessions, each under its own id.
pub struct SessionManager {
    sessions: Vec<(String, UserSession)>,
}

impl SessionManager {
    /// The sessions with their ids, in the order they were opened.
    pub closed spec fn entries(&self) -> Seq<(Seq<char>, UserSession)> {
        self.sessions@.map_values(|e: (String, UserSession)| (e.0@, e.1))
    }

    /// No two sessions share an id.
    pub open spec fn wf(&self) -> bool {
        ids_distinct(self.entries())
    }

    /// No sessions.
    pub fn new() -> (r: Self)
        ensures
            r.wf(),
            r.entries().len() == 0,
    {
        let r = SessionManager { sessions: Vec::new() };
        assert(r.entries() =~= Seq::<(Seq<char>, UserSession)>::empty());
        r
    }

    fn position(&self, session_id: &str) -> (r: Option<usize>)
        requires
            self.wf(),
        ensures
            match r {
                Some(i) => has_entry(self.entries(), session_id@) && i == entry_index(self.entries(), session_id@)
                    && i < self.sessions@.len(),
                None => !has_entry(self.entries(), session_id@),
            },
    {
        let ghost v = self.entries();
        let mut i: usize = 0;
        while i < self.sessions.len()
            invariant
                v == self.entries(),
                ids_distinct(v),
                i <= self.sessions@.len(),
                forall|k: int| 0 <= k < i ==> #[trigger] v[k].0 != session_id@,
            decreases self.sessions.len() - i,
        {
            if str_eq(self.sessions[i].0.as_str(), session_id) {
                proof {
                    assert(v[i as int].0 == session_id@);
                    let k = entry_index(v, session_id@);
                    if k != i as int {
                        assert(v[k].0 != v[i as int].0);
                    }
                }
                return Some(i);
            }
            i = i + 1;
        }
        None
    }

    /// Open a session for `user` under a fresh random id, and return the id.
    pub fn create_session(&mut self, user: User, remember_me: bool) -> (id: String)
        requires
            old(self).wf(),
        ensures
            final(self).wf(),
            uuid_text(id@),
            lookup(final(self).entries(), id@) matches Some(s) && s.user == user && s.remember_me == remember_me
                && s.login_time == s.last_activity,
            exists|s: UserSession| final(self).entries() == put_entry(old(self).entries(), id@, s),
    {
        let session_id = new_uuid_string();
        let session = UserSession::new(user, remember_me);
        let ghost v = self.entries();
        let ghost sv = session;
        match self.position(session_id.as_str()) {
            Some(i) => {
                self.sessions.set(i, (session_id.clone(), session));
                assert(self.entries() =~= v.update(i as int, (session_id@, sv)));
                assert forall|a: int, b: int|
                    0 <= a < self.entries().len() && 0 <= b < self.entries().len() && a != b implies #[trigger] self.entries()[a].0
                    != #[trigger] self.entries()[b].0 by {
                    assert(v[a].0 == self.entries()[a].0);
                    assert(v[b].0 == self.entries()[b].0);
                }
                proof {
                    let e = self.entries();
                    assert(e[i as int].0 == session_id@);
                    let k = entry_index(e, session_id@);
                    if k != i as int {
                        assert(e[k].0 != e[i as int].0);
                    }
                    assert(e == put_entry(v, session_id@, sv));
                }
            },
            None => {
                self.sessions.push((session_id.clone(), session));
                assert(self.entries() =~= v.push((session_id@, sv)));
                assert forall|a: int, b: int|
                    0 <= a < self.entries().len() && 0 <= b < self.entries().len() && a != b implies #[trigger] self.entries()[a].0
                    != #[trigger] self.entries()[b].0 by {
                    if a == v.len() {
                        assert(v[b].0 == self.entries()[b].0);
                    } else if b == v.len() {
                        assert(v[a].0 == self.entries()[a].0);
                    }
                }
                proof {
                    let e = self.entries();
                    let i = v.len() as int;
                    assert(e[i].0 == session_id@);
                    let k = entry_index(e, session_id@);
                    if k != i {
                        assert(e[k].0 != e[i].0);
                    }
                    assert(e == put_entry(v, session_id@, sv));
                }
            },
        }
        session_id
    }

    /// The session stored under an id.
    pub fn get_session(&self, session_id: &str) -> (r: Option<&UserSession>)
        requires
            self.wf(),
        ensures
            match r {
                Some(s) => lookup(self.entries(), session_id@) == Some(*s),
                None => lookup(self.entries(), session_id@) is None,
            },
    {
        match self.position(session_id) {
            Some(i) => Some(&self.sessions[i].1),
            None => None,
        }
    }

    /// The session stored under an id, to change in place.
    pub fn get_session_mut(&mut self, session_id: &str) -> (r: Option<&mut UserSession>)
        requires
            old(self).wf(),
        ensures
            match r {
                None => lookup(old(self).entries(), session_id@) is None && final(self).entries() == old(
                    self,
                ).entries(),
                Some(s) => lookup(old(self).entries(), session_id@) == Some(*s) && final(self).entries()
                    == old(self).entries().update(
                    entry_index(old(self).entries(), session_id@),
                    (session_id@, *final(s)),
                ),
            },
    {
        match self.position(session_id) {
            Some(i) => {
                Some(&mut self.sessions[i].1)
            },
            None => None,
        }
    }

    /// Record activity now on a session; false when there is none under the id.
    pub fn update_session_activity(&mut self, session_id: &str) -> (b: bool)
        requires
            old(self).wf(),
        ensures
            final(self).wf(),
            b == has_entry(old(self).entries(), session_id@),
            !b ==> final(self).entries() == old(self).entries(),
            b ==> exists|t: i64|
                final(self).entries() == old(self).entries().update(
                    entry_index(old(self).entries(), session_id@),
                    (session_id@, #[trigger] with_activity(old(self).entries()[entry_index(old(self).entries(), session_id@)].1, t)),
                ),
    {
        match self.position(session_id) {
            Some(i) => {
                let ghost v = self.entries();
                let mut s = self.sessions[i].1.duplicate();
                s.update_activity();
                let ghost t = s.last_activity;
                let key = self.sessions[i].0.clone();
                self.sessions.set(i, (key, s));
                assert(self.entries() =~= v.update(i as int, (session_id@, with_activity(v[i as int].1, t))));
                assert forall|a: int, b: int|
                    0 <= a < self.entries().len() && 0 <= b < self.entries().len() && a != b implies #[trigger] self.entries()[a].0
                    != #[trigger] self.entries()[b].0 by {
                    assert(v[a].0 == self.entries()[a].0);
                    assert(v[b].0 == self.entries()[b].0);
                }
                true
            },
            None => false,
        }
    }

    /// At time `now`: an expired session is removed and gives `None`; a live
    /// one has its activity recorded at `now` and gives its user.
    pub fn validate_session_at(&mut self, session_id: &str, now: i64) -> (r: Option<&User>)
        requires
            old(self).wf(),
        ensures
            final(self).wf(),
            final(self).entries() == validated_entries(old(self).entries(), session_id@, now),
            match r {
                Some(u) => validated_user(old(self).entries(), session_id@, now) == Some(*u),
                None => validated_user(old(self).entries(), session_id@, now) is None,
            },
    {
        let i = match self.position(session_id) {
            Some(i) => i,
            None => {
                return None;
            },
        };
        let ghost v = self.entries();
        if self.sessions[i].1.is_expired_at(now) {
            self.sessions.remove(i);
            assert(self.entries() =~= v.remove(i as int));
            proof {
                self.lemma_removed(v, i as int);
            }
            None
        } else {
            let mut s = self.sessions[i].1.duplicate();
            s.last_activity = now;
            let key = self.sessions[i].0.clone();
            self.sessions.set(i, (key, s));
            assert(self.entries() =~= v.update(i as int, (session_id@, with_activity(v[i as int].1, now))));
            assert forall|a: int, b: int|
                0 <= a < self.entries().len() && 0 <= b < self.entries().len() && a != b implies #[trigger] self.entries()[a].0
                != #[trigger] self.entries()[b].0 by {
                assert(v[a].0 == self.entries()[a].0);
                assert(v[b].0 == self.entries()[b].0);
            }
            Some(&self.sessions[i].1.user)
        }
    }

    /// After removing position `i` of the entries `v`, the entries are `v`
    /// without that id, and ids stay distinct.
    proof fn lemma_removed(&self, v: Seq<(Seq<char>, UserSession)>, i: int)
        requires
            ids_distinct(v),
            0 <= i < v.len(),
            self.entries() == v.remove(i),
        ensures
            self.wf(),
            has_entry(v, v[i].0),
            entry_index(v, v[i].0) == i,
            self.entries() == drop_entry(v, v[i].0),
    {
        let e = self.entries();
        assert(v[i].0 == v[i].0);
        let k = entry_index(v, v[i].0);
        if k != i {
            assert(v[k].0 != v[i].0);
        }
        assert forall|a: int, b: int| 0 <= a < e.len() && 0 <= b < e.len() && a != b implies #[trigger] e[a].0
            != #[trigger] e[b].0 by {
            let oa = if a < i { a } else { a + 1 };
            let ob = if b < i { b } else { b + 1 };
            assert(e[a] == v[oa]);
            assert(e[b] == v[ob]);
        }
    }

    /// Validate a session now: see `validate_session_at`.
    pub fn validate_session(&mut self, session_id: &str) -> (r: Option<&User>)
        requires
            old(self).wf(),
        ensures
            final(self).wf(),
            exists|now: i64|
                final(self).entries() == #[trigger] validated_entries(old(self).entries(), session_id@, now) && match r {
                    Some(u) => validated_user(old(self).entries(), session_id@, now) == Some(*u),
                    None => validated_user(old(self).entries(), session_id@, now) is None,
                },
    {
        let now = now_unix_seconds();
        self.validate_session_at(session_id, now)
    }

    /// Remove the session under an id; false when there is none.
    pub fn remove_session(&mut self, session_id: &str) -> (b: bool)
        requires
            old(self).wf(),
        ensures
            final(self).wf(),
            b == has_entry(old(self).entries(), session_id@),
            final(self).entries() == drop_entry(old(self).entries(), session_id@),
    {
        match self.position(session_id) {
            Some(i) => {
                let ghost v = self.entries();
                self.sessions.remove(i);
                assert(self.entries() =~= v.remove(i as int));
                proof {
                    self.lemma_removed(v, i as int);
                }
                true
            },
            None => false,
        }
    }

    /// Keep only the entries that `keep` holds of, at time `now` and for the
    /// account `user_id`: a session that is live at `now` when `by_user` is
    /// false, one of another account when it is true.
    fn retain_entries(&mut self, now: i64, user_id: &str, by_user: bool)
        requires
            old(self).wf(),
        ensures
            final(self).wf(),
            final(self).entries() == old(self).entries().filter(
                if by_user {
                    not_owned_by(user_id@)
                } else {
                    live_at(now as int)
                },
            ),
    {
        let ghost p = if by_user {
            not_owned_by(user_id@)
        } else {
            live_at(now as int)
        };
        let ghost v = self.entries();
        let mut kept: Vec<(String, UserSession)> = Vec::new();
        let mut i: usize = 0;
        while i < self.sessions.len()
            invariant
                v == self.entries(),
                p == (if by_user {
                    not_owned_by(user_id@)
                } else {
                    live_at(now as int)
                }),
                i <= self.sessions@.len(),
                kept@.map_values(|e: (String, UserSession)| (e.0@, e.1)) == v.subrange(0, i as int).filter(p),
            decreases self.sessions.len() - i,
        {
            proof {
                reveal(Seq::filter);
            }
            assert(v.subrange(0, i + 1).drop_last() =~= v.subrange(0, i as int));
            assert(v.subrange(0, i + 1).last() == v[i as int]);
            let keep = if by_user {
                !str_eq(self.sessions[i].1.user.id.as_str(), user_id)
            } else {
                !self.sessions[i].1.is_expired_at(now)
            };
            let ghost before = kept@;
            if keep {
                kept.push((self.sessions[i].0.clone(), self.sessions[i].1.duplicate()));
                assert(kept@.map_values(|e: (String, UserSession)| (e.0@, e.1)) =~= before.map_values(
                    |e: (String, UserSession)| (e.0@, e.1),
                ).push(v[i as int]));
            }
            i = i + 1;
        }
        assert(v.subrange(0, v.len() as int) =~= v);
        self.sessions = kept;
        proof {
            lemma_filter_keeps_distinct(v, p);
        }
    }

    /// Remove every session that has expired at time `now`.
    pub fn cleanup_expired_sessions_at(&mut self, now: i64)
        requires
            old(self).wf(),
        ensures
            final(self).wf(),
            final(self).entries() == old(self).entries().filter(live_at(now as int)),
    {
        self.retain_entries(now, "", false);
    }

    /// Remove every session that has expired now.
    pub fn cleanup_expired_sessions(&mut self)
        requires
            old(self).wf(),
        ensures
            final(self).wf(),
            exists|now: i64| final(self).entries() == old(self).entries().filter(#[trigger] live_at(now as int)),
    {
        let now = now_unix_seconds();
        self.cleanup_expired_sessions_at(now);
    }

    /// The number of sessions.
    pub fn active_session_count(&self) -> (n: usize)
        ensures
            n == self.entries().len(),
    {
        self.sessions.len()
    }

    /// The sessions of one account, with their ids, in the order they were opened.
    pub fn get_user_sessions(&self, user_id: &str) -> (r: Vec<(&String, &UserSession)>)
        ensures
            r@.map_values(|e: (&String, &UserSession)| (e.0@, *e.1)) == self.entries().filter(owned_by(user_id@)),
    {
        let ghost v = self.entries();
        let ghost p = owned_by(user_id@);
        let mut out: Vec<(&String, &UserSession)> = Vec::new();
        let mut i: usize = 0;
        while i < self.sessions.len()
            invariant
                v == self.entries(),
                p == owned_by(user_id@),
                i <= self.sessions@.len(),
                out@.map_values(|e: (&String, &UserSession)| (e.0@, *e.1)) == v.subrange(0, i as int).filter(p),
            decreases self.sessions.len() - i,
        {
            proof {
                reveal(Seq::filter);
            }
            assert(v.subrange(0, i + 1).drop_last() =~= v.subrange(0, i as int));
            assert(v.subrange(0, i + 1).last() == v[i as int]);
            let ghost before = out@;
            if str_eq(self.sessions[i].1.user.id.as_str(), user_id) {
                out.push((&self.sessions[i].0, &self.sessions[i].1));
                assert(out@.map_values(|e: (&String, &UserSession)| (e.0@, *e.1)) =~= before.map_values(
                    |e: (&String, &UserSession)| (e.0@, *e.1),
                ).push(v[i as int]));
            }
            i = i + 1;
        }
        assert(v.subrange(0, v.len() as int) =~= v);
        out
    }

    /// Remove every session of one account.
    pub fn remove_user_sessions(&mut self, user_id: &str)
        requires
            old(self).wf(),
        ensures
            final(self).wf(),
            final(self).entries() == old(self).entries().filter(not_owned_by(user_id@)),
    {
        self.retain_entries(0, user_id, true);
    }
}

impl Default for SessionManager {
    fn default() -> (r: Self)
        ensures
            r.wf(),
            r.entries().len() == 0,
    {
        Self::new()
    }
}

} // verus!
