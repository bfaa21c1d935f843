//! Sessions and authentication: token issue and resolution, the login gate,
//! and the guard that protected endpoints run first.

use vstd::prelude::*;

use crate::user::User;
use crate::{random_id, Store, StoreError};

verus! {

/// One live session row: a user id and the opaque token that names it.
pub struct SessionRecord {
    pub user_id: i64,
    pub token: String,
}

/// The login request body.
pub struct LoginBody {
    pub username: String,
    pub password: String,
}

/// A request admitted by the authentication guard, carrying the resolved user.
pub struct Auth(pub User);

/// The guard's one rejection: every failure collapses into the same outcome,
/// so the response never tells why resolution failed.
#[derive(Debug)]
pub enum AuthError {
    Unauthorized,
}

/// The login endpoint's failures: `NotFound` for bad credentials (the same
/// outcome whether the username or the password was wrong), `Internal` when
/// issuing the session failed.
#[derive(Debug)]
pub enum LoginError {
    NotFound,
    Internal,
}

/// The supplied name picks a stored user and the supplied password matches
/// that user's stored password. Login succeeds exactly on these inputs.
pub open spec fn good_credentials(s: Store, username: Seq<char>, password: Seq<char>) -> bool {
    s.has_username(username) && s.user_with_name(username).password@ == password
}

/// What a successful issue leaves behind: the token was not live before and
/// now resolves to the user; any prior session of the user is gone; every
/// other session still resolves as it did.
pub open spec fn issued(pre: Store, post: Store, user_id: i64, t: Seq<char>) -> bool {
    &&& !pre.has_token(t)
    &&& post.has_token(t)
    &&& post.session_user(t) == user_id
    &&& forall|t2: Seq<char>|
        t2 != t ==> (#[trigger] post.has_token(t2) <==> pre.has_token(t2) && pre.session_user(t2)
            != user_id)
    &&& forall|t2: Seq<char>|
        t2 != t && #[trigger] post.has_token(t2) ==> post.session_user(t2) == pre.session_user(t2)
}

impl Store {
    /// Installs a session for a stored user under a given token: deletes any
    /// prior session of the user and inserts the new row. Fails, changing
    /// nothing, exactly when the token is already live.
    pub fn install_session(&mut self, user: &User, token: String) -> (r: Result<
        String,
        StoreError,
    >)
        requires
            old(self).wf(),
            old(self).has_user_id(user.id),
        ensures
            final(self).wf(),
            final(self).users == old(self).users,
            final(self).feeds == old(self).feeds,
            final(self).images == old(self).images,
            final(self).next_user_id == old(self).next_user_id,
            r is Err <==> old(self).has_token(token@),
            match r {
                Ok(t) => t@ == token@ && issued(*old(self), *final(self), user.id, t@),
                Err(e) => e == StoreError::Conflict && *final(self) == *old(self),
            },
    {
        let ghost pre = *self;

        let mut i: usize = 0;
        while i < self.sessions.len()
            invariant
                *self == pre,
                pre == *old(self),
                pre.wf(),
                i <= self.sessions@.len(),
                forall|j: int| 0 <= j < i ==> pre.sessions@[j].token@ != token@,
            decreases self.sessions@.len() - i,
        {
            if self.sessions[i].token == token {
                proof {
                    assert(pre.has_token(token@));
                }
                return Err(StoreError::Conflict);
            }
            i += 1;
        }
        proof {
            assert(!pre.has_token(token@)) by {
                if pre.has_token(token@) {
                    let k = choose|k: int|
                        0 <= k < pre.sessions@.len() && pre.sessions@[k].token@ == token@;
                }
            }
        }

        let n = self.sessions.len();
        let mut k: usize = 0;
        let mut prior: Option<usize> = None;
        while k < n && prior.is_none()
            invariant
                *self == pre,
                pre == *old(self),
                pre.wf(),
                n == pre.sessions@.len(),
                k <= n,
                match prior {
                    Some(idx) => idx < n && pre.sessions@[idx as int].user_id == user.id,
                    None => forall|j: int| 0 <= j < k ==> pre.sessions@[j].user_id != user.id,
                },
            decreases (n - k) as int + (if prior is None {
                1int
            } else {
                0int
            }),
        {
            if self.sessions[k].user_id == user.id {
                prior = Some(k);
            } else {
                k += 1;
            }
        }

        let ghost mid;
        match prior {
            Some(idx) => {
                self.sessions.remove(idx);
                proof {
                    mid = *self;
                    crate::lemma_remove_session(pre, mid, idx as int);
                    crate::lemma_users_agree(pre, mid);
                    pre.lemma_session_at(idx as int);
                }
            },
            None => {
                proof {
                    mid = *self;
                    assert(!pre.has_session_for(user.id)) by {
                        if pre.has_session_for(user.id) {
                            let j = choose|j: int|
                                0 <= j < pre.sessions@.len() && pre.sessions@[j].user_id
                                    == user.id;
                        }
                    }
                }
            },
        }

        let record = SessionRecord { user_id: user.id, token: token.clone() };
        self.sessions.push(record);
        proof {
            crate::lemma_add_session(
                mid,
                *self,
                SessionRecord { user_id: user.id, token: token },
            );
            let post = *self;
            assert forall|t2: Seq<char>|
                t2 != token@ implies (#[trigger] post.has_token(t2) <==> pre.has_token(t2)
                && pre.session_user(t2) != user.id) by {
                if pre.has_token(t2) {
                    let j = choose|j: int|
                        0 <= j < pre.sessions@.len() && pre.sessions@[j].token@ == t2;
                    pre.lemma_session_at(j);
                    if prior is Some {
                        let idx = prior->0 as int;
                        if pre.session_user(t2) == user.id {
                            assert(pre.sessions@[j].user_id == user.id);
                            assert(j == idx);
                        } else {
                            assert(t2 != pre.sessions@[idx].token@);
                        }
                    } else {
                        assert(pre.sessions@[j].user_id != user.id);
                    }
                }
            }
            assert forall|t2: Seq<char>|
                t2 != token@ && #[trigger] post.has_token(t2) implies post.session_user(t2)
                == pre.session_user(t2) by {
                assert(mid.has_token(t2));
            }
        }
        Ok(token)
    }

    /// Issues a session for a stored user: draws a random token and installs
    /// it. Fails, changing nothing, only when the drawn token is already
    /// live — impossible while no session is live at all, so on a store
    /// without sessions issuing always succeeds.
    pub fn create_session(&mut self, user: &User) -> (r: Result<String, StoreError>)
        requires
            old(self).wf(),
            old(self).has_user_id(user.id),
        ensures
            final(self).wf(),
            final(self).users == old(self).users,
            final(self).feeds == old(self).feeds,
            final(self).images == old(self).images,
            final(self).next_user_id == old(self).next_user_id,
            old(self).sessions@.len() == 0 ==> r is Ok,
            match r {
                Ok(t) => t@.len() == 36 && issued(*old(self), *final(self), user.id, t@),
                Err(e) => e == StoreError::Conflict && *final(self) == *old(self),
            },
    {
        let ghost pre = *self;
        let token = random_id();
        let ghost t = token@;
        let r = self.install_session(user, token);
        proof {
            if pre.sessions@.len() == 0 {
                assert(!pre.has_token(t)) by {
                    if pre.has_token(t) {
                        let k = choose|k: int|
                            0 <= k < pre.sessions@.len() && pre.sessions@[k].token@ == t;
                    }
                }
            }
        }
        r
    }

    /// Resolves a token to the full user record behind it, or fails with the
    /// one uniform error when the token is not live.
    pub fn resolve_session(&self, key: &String) -> (r: Result<User, StoreError>)
        requires
            self.wf(),
        ensures
            match r {
                Ok(u) => self.has_token(key@) && u == self.user_with_id(self.session_user(key@)),
                Err(e) => e == StoreError::NotFound && !self.has_token(key@),
            },
    {
        let mut i: usize = 0;
        while i < self.sessions.len()
            invariant
                self.wf(),
                i <= self.sessions@.len(),
                forall|j: int| 0 <= j < i ==> self.sessions@[j].token@ != key@,
            decreases self.sessions@.len() - i,
        {
            if self.sessions[i].token == *key {
                proof {
                    self.lemma_session_at(i as int);
                }
                let user_id = self.sessions[i].user_id;
                match self.user_by_id(user_id) {
                    Some(u) => {
                        return Ok(u);
                    },
                    None => {
                        return Err(StoreError::NotFound);
                    },
                }
            }
            i += 1;
        }
        proof {
            assert(!self.has_token(key@)) by {
                if self.has_token(key@) {
                    let k = choose|k: int|
                        0 <= k < self.sessions@.len() && self.sessions@[k].token@ == key@;
                }
            }
        }
        Err(StoreError::NotFound)
    }
}

/// The login gate: look the user up by username, compare the password by
/// exact equality, and on a match issue a session. A missing user and a
/// wrong password fail with the same `NotFound`; only a failure to issue
/// the session (a token collision, impossible while no session is live)
/// reports `Internal`.
pub fn login(store: &mut Store, body: &LoginBody) -> (r: Result<String, LoginError>)
    requires
        old(store).wf(),
    ensures
        final(store).wf(),
        final(store).users == old(store).users,
        final(store).feeds == old(store).feeds,
        final(store).images == old(store).images,
        final(store).next_user_id == old(store).next_user_id,
        old(store).sessions@.len() == 0 ==> !(r matches Err(LoginError::Internal)),
        r matches Err(LoginError::NotFound) <==> !good_credentials(
            *old(store),
            body.username@,
            body.password@,
        ),
        match r {
            Ok(t) => t@.len() == 36 && issued(
                *old(store),
                *final(store),
                old(store).user_with_name(body.username@).id,
                t@,
            ),
            Err(_) => *final(store) == *old(store),
        },
{
    let user = match store.find_user(&body.username) {
        Ok(u) => u,
        Err(_) => {
            return Err(LoginError::NotFound);
        },
    };

    if user.password != body.password {
        return Err(LoginError::NotFound);
    }

    proof {
        let k = choose|k: int|
            0 <= k < store.users@.len() && store.users@[k].username@ == body.username@;
        store.lemma_user_at(k);
    }
    match store.create_session(&user) {
        Ok(token) => Ok(token),
        Err(_) => Err(LoginError::Internal),
    }
}

impl Auth {
    /// The authentication guard: runs before any protected handler. A missing
    /// or unreadable header and a token that does not resolve are rejected
    /// with the same outcome; a live token admits the request and exposes
    /// exactly the session's user.
    pub fn authenticate(store: &Store, header: Option<&String>) -> (r: Result<Auth, AuthError>)
        requires
            store.wf(),
        ensures
            match r {
                Ok(a) => header matches Some(t) && store.has_token(t@) && a.0
                    == store.user_with_id(store.session_user(t@)),
                Err(e) => e == AuthError::Unauthorized && match header {
                    Some(t) => !store.has_token(t@),
                    None => true,
                },
            },
    {
        let token = match header {
            Some(t) => t,
            None => {
                return Err(AuthError::Unauthorized);
            },
        };
        match store.resolve_session(token) {
            Ok(user) => Ok(Auth(user)),
            Err(_) => Err(AuthError::Unauthorized),
        }
    }
}

/// The single-live-session law: issuing a session for the same user twice
/// yields a second token different from the first; afterwards the first
/// token no longer resolves, and the second resolves to the user.
pub proof fn lemma_single_live_session(
    s0: Store,
    s1: Store,
    s2: Store,
    user_id: i64,
    t1: Seq<char>,
    t2: Seq<char>,
)
    requires
        issued(s0, s1, user_id, t1),
        issued(s1, s2, user_id, t2),
    ensures
        t2 != t1,
        !s2.has_token(t1),
        s2.has_token(t2),
        s2.session_user(t2) == user_id,
{
    assert(s1.has_token(t1));
    assert(!s1.has_token(t2));
    assert(s2.has_token(t1) <==> s1.has_token(t1) && s1.session_user(t1) != user_id);
}

/// Uniform login rejection: a stored username with the wrong password and an
/// unknown username both fail the credential check that `login` rejects by,
/// while correct credentials pass it.
pub proof fn lemma_login_rejection_uniform(
    s: Store,
    wrong_pw: LoginBody,
    unknown: LoginBody,
    good: LoginBody,
)
    requires
        s.has_username(wrong_pw.username@),
        s.user_with_name(wrong_pw.username@).password@ != wrong_pw.password@,
        !s.has_username(unknown.username@),
        s.has_username(good.username@),
        s.user_with_name(good.username@).password@ == good.password@,
    ensures
        !good_credentials(s, wrong_pw.username@, wrong_pw.password@),
        !good_credentials(s, unknown.username@, unknown.password@),
        good_credentials(s, good.username@, good.password@),
{
}

} // verus!
