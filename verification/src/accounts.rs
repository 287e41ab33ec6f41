//! The account table and the session table shared by the account managers.
//!
//! Accounts are kept with pairwise distinct ids, user names and e-mail
//! addresses; sessions map distinct tokens to user ids.
use vstd::prelude::*;
use crate::models::User;
use crate::text::str_eq;

verus! {

/// Ids, user names and e-mail addresses are pairwise distinct.
pub open spec fn users_wf(u: Seq<User>) -> bool {
    forall|i: int, j: int|
        0 <= i < u.len() && 0 <= j < u.len() && i != j ==> {
            &&& #[trigger] u[i].id@ != #[trigger] u[j].id@
            &&& u[i].username@ != u[j].username@
            &&& u[i].email@ != u[j].email@
        }
}

/// Some account has this id.
pub open spec fn has_id(u: Seq<User>, id: Seq<char>) -> bool {
    exists|i: int| 0 <= i < u.len() && #[trigger] u[i].id@ == id
}

/// Some account has this user name.
pub open spec fn has_username(u: Seq<User>, name: Seq<char>) -> bool {
    exists|i: int| 0 <= i < u.len() && #[trigger] u[i].username@ == name
}

/// Some account has this e-mail address.
pub open spec fn has_email(u: Seq<User>, email: Seq<char>) -> bool {
    exists|i: int| 0 <= i < u.len() && #[trigger] u[i].email@ == email
}

/// Position of the account with this id.
pub open spec fn id_index(u: Seq<User>, id: Seq<char>) -> int {
    choose|i: int| 0 <= i < u.len() && #[trigger] u[i].id@ == id
}

/// Position of the account with this user name.
pub open spec fn username_index(u: Seq<User>, name: Seq<char>) -> int {
    choose|i: int| 0 <= i < u.len() && #[trigger] u[i].username@ == name
}

/// Position of the account with this e-mail address.
pub open spec fn email_index(u: Seq<User>, email: Seq<char>) -> int {
    choose|i: int| 0 <= i < u.len() && #[trigger] u[i].email@ == email
}

/// An account other than the one at `i` has this user name.
pub open spec fn username_taken_by_other(u: Seq<User>, name: Seq<char>, i: int) -> bool {
    exists|j: int| 0 <= j < u.len() && j != i && #[trigger] u[j].username@ == name
}

/// An account other than the one at `i` has this e-mail address.
pub open spec fn email_taken_by_other(u: Seq<User>, email: Seq<char>, i: int) -> bool {
    exists|j: int| 0 <= j < u.len() && j != i && #[trigger] u[j].email@ == email
}

/// The table after storing `x` under its id: it replaces the account with
/// that id, or is added at the end.
pub open spec fn put_user(u: Seq<User>, x: User) -> Seq<User> {
    if has_id(u, x.id@) {
        u.update(id_index(u, x.id@), x)
    } else {
        u.push(x)
    }
}

/// Sessions taken by the characters of their token and user id.
pub open spec fn sessions_view(s: Seq<(String, String)>) -> Seq<(Seq<char>, Seq<char>)> {
    s.map_values(|p: (String, String)| (p.0@, p.1@))
}

/// Session tokens are pairwise distinct.
pub open spec fn sessions_wf(s: Seq<(Seq<char>, Seq<char>)>) -> bool {
    forall|i: int, j: int| 0 <= i < s.len() && 0 <= j < s.len() && i != j ==> #[trigger] s[i].0 != #[trigger] s[j].0
}

/// Some session has this token.
pub open spec fn has_session(s: Seq<(Seq<char>, Seq<char>)>, token: Seq<char>) -> bool {
    exists|i: int| 0 <= i < s.len() && #[trigger] s[i].0 == token
}

/// Position of the session with this token.
pub open spec fn session_index(s: Seq<(Seq<char>, Seq<char>)>, token: Seq<char>) -> int {
    choose|i: int| 0 <= i < s.len() && #[trigger] s[i].0 == token
}

/// The user id a session token is bound to.
pub open spec fn session_user(s: Seq<(Seq<char>, Seq<char>)>, token: Seq<char>) -> Seq<char> {
    s[session_index(s, token)].1
}

/// The sessions after binding `token` to `user_id` (replacing a binding of
/// the same token).
pub open spec fn put_session(s: Seq<(Seq<char>, Seq<char>)>, token: Seq<char>, user_id: Seq<char>) -> Seq<
    (Seq<char>, Seq<char>),
> {
    if has_session(s, token) {
        s.update(session_index(s, token), (token, user_id))
    } else {
        s.push((token, user_id))
    }
}

/// The sessions without the one with this token.
pub open spec fn drop_session(s: Seq<(Seq<char>, Seq<char>)>, token: Seq<char>) -> Seq<(Seq<char>, Seq<char>)> {
    if has_session(s, token) {
        s.remove(session_index(s, token))
    } else {
        s
    }
}

/// After binding a token, the token is bound to that user id.
pub proof fn lemma_put_session(s: Seq<(Seq<char>, Seq<char>)>, token: Seq<char>, user_id: Seq<char>)
    requires
        sessions_wf(s),
    ensures
        sessions_wf(put_session(s, token, user_id)),
        has_session(put_session(s, token, user_id), token),
        session_user(put_session(s, token, user_id), token) == user_id,
{
    let t = put_session(s, token, user_id);
    let p = if has_session(s, token) {
        session_index(s, token)
    } else {
        s.len() as int
    };
    assert(t[p].0 == token);
    assert forall|a: int, b: int| 0 <= a < t.len() && 0 <= b < t.len() && a != b implies #[trigger] t[a].0
        != #[trigger] t[b].0 by {
        if a != p && b != p {
            assert(t[a] == s[a] && t[b] == s[b]);
        } else if a == p {
            if has_session(s, token) {
                assert(s[b].0 != s[p].0);
            } else {
                assert(t[b] == s[b]);
            }
        } else {
            if has_session(s, token) {
                assert(s[a].0 != s[p].0);
            } else {
                assert(t[a] == s[a]);
            }
        }
    }
    let k = session_index(t, token);
    if k != p {
        assert(t[k].0 != t[p].0);
    }
}

/// Logging out ends exactly one session: once a token is dropped it names no
/// session, and every other token is bound to the user it was bound to.
pub proof fn law_logout_ends_session(s: Seq<(Seq<char>, Seq<char>)>, token: Seq<char>, other: Seq<char>)
    requires
        sessions_wf(s),
    ensures
        sessions_wf(drop_session(s, token)),
        !has_session(drop_session(s, token), token),
        other != token ==> has_session(drop_session(s, token), other) == has_session(s, other),
        other != token && has_session(s, other) ==> session_user(drop_session(s, token), other) == session_user(
            s,
            other,
        ),
{
    let t = drop_session(s, token);
    if has_session(s, token) {
        let i = session_index(s, token);
        assert(s[i].0 == token);
        assert forall|a: int, b: int| 0 <= a < t.len() && 0 <= b < t.len() && a != b implies #[trigger] t[a].0
            != #[trigger] t[b].0 by {
            let oa = if a < i { a } else { a + 1 };
            let ob = if b < i { b } else { b + 1 };
            assert(t[a] == s[oa] && t[b] == s[ob]);
        }
        if has_session(t, token) {
            let j = session_index(t, token);
            let oj = if j < i { j } else { j + 1 };
            assert(t[j] == s[oj]);
        }
        if other != token && has_session(s, other) {
            let j = session_index(s, other);
            assert(j != i);
            let tj = if j < i { j } else { j - 1 };
            assert(t[tj] == s[j]);
            assert(has_session(t, other));
            let k = session_index(t, other);
            if k != tj {
                assert(t[k].0 != t[tj].0);
            }
        }
        if other != token && has_session(t, other) {
            let j = session_index(t, other);
            let oj = if j < i { j } else { j + 1 };
            assert(t[j] == s[oj]);
        }
    }
}

/// Position of the account with this id.
pub fn find_id(u: &Vec<User>, id: &str) -> (r: Option<usize>)
    ensures
        r matches Some(i) ==> i < u@.len() && u@[i as int].id@ == id@,
        r is None ==> !has_id(u@, id@),
{
    let mut i: usize = 0;
    while i < u.len()
        invariant
            i <= u.len(),
            forall|j: int| 0 <= j < i ==> u@[j].id@ != id@,
        decreases u.len() - i,
    {
        if str_eq(u[i].id.as_str(), id) {
            return Some(i);
        }
        i = i + 1;
    }
    None
}

/// Position of the account with this user name.
pub fn find_username(u: &Vec<User>, name: &str) -> (r: Option<usize>)
    ensures
        r matches Some(i) ==> i < u@.len() && u@[i as int].username@ == name@,
        r is None ==> !has_username(u@, name@),
{
    let mut i: usize = 0;
    while i < u.len()
        invariant
            i <= u.len(),
            forall|j: int| 0 <= j < i ==> u@[j].username@ != name@,
        decreases u.len() - i,
    {
        if str_eq(u[i].username.as_str(), name) {
            return Some(i);
        }
        i = i + 1;
    }
    None
}

/// Position of the account with this e-mail address.
pub fn find_email(u: &Vec<User>, email: &str) -> (r: Option<usize>)
    ensures
        r matches Some(i) ==> i < u@.len() && u@[i as int].email@ == email@,
        r is None ==> !has_email(u@, email@),
{
    let mut i: usize = 0;
    while i < u.len()
        invariant
            i <= u.len(),
            forall|j: int| 0 <= j < i ==> u@[j].email@ != email@,
        decreases u.len() - i,
    {
        if str_eq(u[i].email.as_str(), email) {
            return Some(i);
        }
        i = i + 1;
    }
    None
}

/// In a well-formed table the position found for an id is the only one.
pub proof fn lemma_id_index(u: Seq<User>, i: int)
    requires
        users_wf(u),
        0 <= i < u.len(),
    ensures
        has_id(u, u[i].id@),
        id_index(u, u[i].id@) == i,
{
    assert(u[i].id@ == u[i].id@);
    let k = id_index(u, u[i].id@);
    if k != i {
        assert(u[k].id@ != u[i].id@);
    }
}

/// In a well-formed table the position found for a user name is the only one.
pub proof fn lemma_username_index(u: Seq<User>, i: int)
    requires
        users_wf(u),
        0 <= i < u.len(),
    ensures
        has_username(u, u[i].username@),
        username_index(u, u[i].username@) == i,
{
    assert(u[i].username@ == u[i].username@);
    let k = username_index(u, u[i].username@);
    if k != i {
        assert(u[k].id@ != u[i].id@);
    }
}

/// In a well-formed table the position found for an e-mail address is the only one.
pub proof fn lemma_email_index(u: Seq<User>, i: int)
    requires
        users_wf(u),
        0 <= i < u.len(),
    ensures
        has_email(u, u[i].email@),
        email_index(u, u[i].email@) == i,
{
    assert(u[i].email@ == u[i].email@);
    let k = email_index(u, u[i].email@);
    if k != i {
        assert(u[k].id@ != u[i].id@);
    }
}

/// Where `put_user` places `x`.
pub open spec fn put_position(u: Seq<User>, x: User) -> int {
    if has_id(u, x.id@) {
        id_index(u, x.id@)
    } else {
        u.len() as int
    }
}

/// Storing an account whose user name and e-mail are free among the
/// accounts with other ids keeps the table well formed.
pub proof fn lemma_put_user(u: Seq<User>, x: User)
    requires
        users_wf(u),
        forall|j: int|
            0 <= j < u.len() && #[trigger] u[j].id@ != x.id@ ==> u[j].username@ != x.username@
                && u[j].email@ != x.email@,
    ensures
        users_wf(put_user(u, x)),
        0 <= put_position(u, x) < put_user(u, x).len(),
        put_user(u, x)[put_position(u, x)] == x,
        put_user(u, x).len() >= u.len(),
        forall|j: int| 0 <= j < u.len() && j != put_position(u, x) ==> put_user(u, x)[j] == u[j],
{
    let t = put_user(u, x);
    let p = put_position(u, x);
    assert(t[p] == x);
    assert forall|b: int| 0 <= b < u.len() && b != p implies u[b].id@ != x.id@ by {
        if has_id(u, x.id@) {
            assert(u[p].id@ == x.id@);
            assert(u[b].id@ != u[p].id@);
        } else {
            assert(!(u[b].id@ == x.id@));
        }
    }
    assert forall|a: int, b: int| 0 <= a < t.len() && 0 <= b < t.len() && a != b implies {
        &&& #[trigger] t[a].id@ != #[trigger] t[b].id@
        &&& t[a].username@ != t[b].username@
        &&& t[a].email@ != t[b].email@
    } by {
        if a != p && b != p {
            assert(t[a] == u[a] && t[b] == u[b]);
        } else if a == p {
            assert(t[b] == u[b]);
            assert(u[b].id@ != x.id@);
            assert(u[b].username@ != x.username@ && u[b].email@ != x.email@);
        } else {
            assert(t[a] == u[a]);
            assert(u[a].id@ != x.id@);
            assert(u[a].username@ != x.username@ && u[a].email@ != x.email@);
        }
    }
}

/// Store `x` under its id; its user name and e-mail must be free among the
/// other accounts.
pub fn store_user(u: &mut Vec<User>, x: User)
    requires
        users_wf(old(u)@),
        forall|j: int|
            0 <= j < old(u)@.len() && #[trigger] old(u)@[j].id@ != x.id@ ==> old(u)@[j].username@
                != x.username@ && old(u)@[j].email@ != x.email@,
    ensures
        final(u)@ == put_user(old(u)@, x),
        users_wf(final(u)@),
{
    proof {
        lemma_put_user(old(u)@, x);
    }
    match find_id(u, x.id.as_str()) {
        Some(i) => {
            proof {
                lemma_id_index(old(u)@, i as int);
            }
            u.set(i, x);
        },
        None => {
            u.push(x);
        },
    }
}

/// Replace the account at `i` by `x`, which keeps its id; its user name and
/// e-mail must be free among the other accounts.
pub fn replace_user(u: &mut Vec<User>, i: usize, x: User)
    requires
        users_wf(old(u)@),
        i < old(u)@.len(),
        x.id@ == old(u)@[i as int].id@,
        !username_taken_by_other(old(u)@, x.username@, i as int),
        !email_taken_by_other(old(u)@, x.email@, i as int),
    ensures
        final(u)@ == old(u)@.update(i as int, x),
        users_wf(final(u)@),
{
    u.set(i, x);
    assert forall|a: int, b: int|
        0 <= a < u@.len() && 0 <= b < u@.len() && a != b implies {
        &&& #[trigger] u@[a].id@ != #[trigger] u@[b].id@
        &&& u@[a].username@ != u@[b].username@
        &&& u@[a].email@ != u@[b].email@
    } by {
        if a == i {
            assert(old(u)@[b].username@ == u@[b].username@);
        } else if b == i {
            assert(old(u)@[a].username@ == u@[a].username@);
        }
    }
}

/// Position of the session with this token.
pub fn find_session(s: &Vec<(String, String)>, token: &str) -> (r: Option<usize>)
    ensures
        r matches Some(i) ==> i < s@.len() && s@[i as int].0@ == token@,
        r is None ==> !has_session(sessions_view(s@), token@),
{
    let mut i: usize = 0;
    while i < s.len()
        invariant
            i <= s.len(),
            forall|j: int| 0 <= j < i ==> s@[j].0@ != token@,
        decreases s.len() - i,
    {
        if str_eq(s[i].0.as_str(), token) {
            return Some(i);
        }
        i = i + 1;
    }
    None
}

/// Bind `token` to `user_id`.
pub fn store_session(s: &mut Vec<(String, String)>, token: String, user_id: String)
    requires
        sessions_wf(sessions_view(old(s)@)),
    ensures
        sessions_view(final(s)@) == put_session(sessions_view(old(s)@), token@, user_id@),
        sessions_wf(sessions_view(final(s)@)),
{
    let ghost tv = token@;
    let ghost uv = user_id@;
    proof {
        lemma_put_session(sessions_view(old(s)@), tv, uv);
    }
    match find_session(s, token.as_str()) {
        Some(i) => {
            let ghost ov = sessions_view(old(s)@);
            assert(ov[i as int].0 == tv);
            let ghost k = session_index(ov, tv);
            proof {
                if k != i {
                    assert(ov[k].0 != ov[i as int].0);
                }
            }
            s.set(i, (token, user_id));
            assert(sessions_view(s@) =~= ov.update(i as int, (tv, uv)));
        },
        None => {
            s.push((token, user_id));
            assert(sessions_view(s@) =~= sessions_view(old(s)@).push((tv, uv)));
        },
    }
}

/// Remove the session with this token; reports whether there was one.
pub fn remove_session(s: &mut Vec<(String, String)>, token: &str) -> (b: bool)
    requires
        sessions_wf(sessions_view(old(s)@)),
    ensures
        b == has_session(sessions_view(old(s)@), token@),
        sessions_view(final(s)@) == drop_session(sessions_view(old(s)@), token@),
        sessions_wf(sessions_view(final(s)@)),
{
    let ghost ov = sessions_view(old(s)@);
    match find_session(s, token) {
        Some(i) => {
            assert(ov[i as int].0 == token@);
            let ghost k = session_index(ov, token@);
            proof {
                if k != i {
                    assert(ov[k].0 != ov[i as int].0);
                }
            }
            s.remove(i);
            assert(sessions_view(s@) =~= ov.remove(i as int));
            let ghost nv = sessions_view(s@);
            assert forall|a: int, b: int|
                0 <= a < nv.len() && 0 <= b < nv.len() && a != b implies #[trigger] nv[a].0
                    != #[trigger] nv[b].0 by {
                let oa = if a < i { a } else { a + 1 };
                let ob = if b < i { b } else { b + 1 };
                assert(nv[a] == ov[oa]);
                assert(nv[b] == ov[ob]);
            }
            true
        },
        None => false,
    }
}

} // verus!
