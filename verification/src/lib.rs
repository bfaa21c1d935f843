//! Verified core of a social-feed backend: session store, authentication
//! guard, credential gate (login), and the multipart feed-upload pipeline.
//!
//! Persistent state is modelled by the in-memory [`Store`]; the surrounding
//! server (HTTP routing, the real database, multipart decoding) lives outside
//! the library and drives the verified logic with plain values.

use vstd::prelude::*;

pub mod auth;
pub mod comment;
pub mod feed;
pub mod user;

use crate::auth::SessionRecord;
use crate::feed::{Feed, ImageRecord};
use crate::user::User;

verus! {

/// The failure modes of the model store. `NotFound` stands for a lookup that
/// matched no row; `Conflict` for an insert that would break a uniqueness
/// invariant (a duplicate username, or a freshly drawn token or feed
/// identifier that is already taken).
#[derive(Debug)]
pub enum StoreError {
    NotFound,
    Conflict,
}

/// The application state: one in-memory model of the four relations
/// (users, sessions, feeds, images) that the backend persists.
pub struct Store {
    pub users: Vec<User>,
    pub sessions: Vec<SessionRecord>,
    pub feeds: Vec<Feed>,
    pub images: Vec<ImageRecord>,
    /// The next user id to hand out; all stored ids lie below it.
    pub next_user_id: i64,
}

impl Store {
    /// There is a stored user with this id.
    pub open spec fn has_user_id(self, id: i64) -> bool {
        exists|i: int| 0 <= i < self.users@.len() && self.users@[i].id == id
    }

    /// The stored user with this id (meaningful when `has_user_id`).
    pub open spec fn user_with_id(self, id: i64) -> User {
        let i = choose|i: int| 0 <= i < self.users@.len() && self.users@[i].id == id;
        self.users@[i]
    }

    /// There is a stored user with this username.
    pub open spec fn has_username(self, name: Seq<char>) -> bool {
        exists|i: int| 0 <= i < self.users@.len() && self.users@[i].username@ == name
    }

    /// The stored user with this username (meaningful when `has_username`).
    pub open spec fn user_with_name(self, name: Seq<char>) -> User {
        let i = choose|i: int| 0 <= i < self.users@.len() && self.users@[i].username@ == name;
        self.users@[i]
    }

    /// Some live session carries this token.
    pub open spec fn has_token(self, token: Seq<char>) -> bool {
        exists|i: int| 0 <= i < self.sessions@.len() && self.sessions@[i].token@ == token
    }

    /// The user id that this token resolves to (meaningful when `has_token`).
    pub open spec fn session_user(self, token: Seq<char>) -> i64 {
        let i = choose|i: int|
            0 <= i < self.sessions@.len() && self.sessions@[i].token@ == token;
        self.sessions@[i].user_id
    }

    /// Some user id owns a live session.
    pub open spec fn has_session_for(self, user_id: i64) -> bool {
        exists|i: int| 0 <= i < self.sessions@.len() && self.sessions@[i].user_id == user_id
    }

    /// There is a feed record with this identifier.
    pub open spec fn has_feed(self, feed_id: Seq<char>) -> bool {
        exists|i: int| 0 <= i < self.feeds@.len() && self.feeds@[i].id@ == feed_id
    }

    /// The feed record with this identifier (meaningful when `has_feed`).
    pub open spec fn feed_with_id(self, feed_id: Seq<char>) -> Feed {
        let i = choose|i: int| 0 <= i < self.feeds@.len() && self.feeds@[i].id@ == feed_id;
        self.feeds@[i]
    }

    /// There is an image row keyed by this feed identifier and position.
    pub open spec fn has_image(self, feed_id: Seq<char>, position: u8) -> bool {
        exists|i: int|
            0 <= i < self.images@.len() && self.images@[i].feed_id@ == feed_id
                && self.images@[i].position == position
    }

    /// The bytes of the image row at this key (meaningful when `has_image`).
    pub open spec fn image_at(self, feed_id: Seq<char>, position: u8) -> Seq<u8> {
        let i = choose|i: int|
            0 <= i < self.images@.len() && self.images@[i].feed_id@ == feed_id
                && self.images@[i].position == position;
        self.images@[i].data@
    }

    /// User ids and usernames are unique, and ids lie below `next_user_id`.
    pub open spec fn users_wf(self) -> bool {
        &&& 0 <= self.next_user_id
        &&& forall|i: int, j: int|
            #![trigger self.users@[i], self.users@[j]]
            0 <= i < self.users@.len() && 0 <= j < self.users@.len() && i != j
                ==> self.users@[i].id != self.users@[j].id && self.users@[i].username@
                != self.users@[j].username@
        &&& forall|i: int|
            #![trigger self.users@[i]]
            0 <= i < self.users@.len() ==> 0 <= self.users@[i].id < self.next_user_id
    }

    /// Tokens are unique, each user owns at most one live session, and every
    /// session points at a stored user.
    pub open spec fn sessions_wf(self) -> bool {
        &&& forall|i: int, j: int|
            #![trigger self.sessions@[i], self.sessions@[j]]
            0 <= i < self.sessions@.len() && 0 <= j < self.sessions@.len() && i != j
                ==> self.sessions@[i].token@ != self.sessions@[j].token@
                    && self.sessions@[i].user_id != self.sessions@[j].user_id
        &&& forall|i: int|
            #![trigger self.sessions@[i]]
            0 <= i < self.sessions@.len() ==> self.has_user_id(self.sessions@[i].user_id)
    }

    /// Feed identifiers are unique, every feed belongs to a stored user,
    /// holds at least one image and a non-empty caption, feeds are appended
    /// in order of creation time, and the image rows under a feed's
    /// identifier are exactly the positions below its `image_count`.
    pub open spec fn feeds_wf(self) -> bool {
        &&& forall|i: int, j: int|
            #![trigger self.feeds@[i], self.feeds@[j]]
            0 <= i < self.feeds@.len() && 0 <= j < self.feeds@.len() && i != j
                ==> self.feeds@[i].id@ != self.feeds@[j].id@
        &&& forall|i: int|
            #![trigger self.feeds@[i]]
            0 <= i < self.feeds@.len() ==> self.feeds@[i].caption@.len() > 0
        &&& forall|i: int, j: int|
            #![trigger self.feeds@[i], self.feeds@[j]]
            0 <= i <= j < self.feeds@.len() ==> self.feeds@[i].created_at
                <= self.feeds@[j].created_at
        &&& forall|i: int|
            #![trigger self.feeds@[i]]
            0 <= i < self.feeds@.len() ==> self.has_user_id(self.feeds@[i].user_id)
                && self.feeds@[i].image_count >= 1
        &&& forall|i: int, p: u8|
            #![trigger self.has_image(self.feeds@[i].id@, p)]
            0 <= i < self.feeds@.len()
                ==> (self.has_image(self.feeds@[i].id@, p) <==> (p as int)
                < self.feeds@[i].image_count as int)
    }

    /// No two image rows share a `(feed_id, position)` key.
    pub open spec fn images_wf(self) -> bool {
        forall|i: int, j: int|
            #![trigger self.images@[i], self.images@[j]]
            0 <= i < self.images@.len() && 0 <= j < self.images@.len() && i != j
                ==> !(self.images@[i].feed_id@ == self.images@[j].feed_id@
                    && self.images@[i].position == self.images@[j].position)
    }

    /// The store invariant: every operation of the library preserves it.
    pub open spec fn wf(self) -> bool {
        self.users_wf() && self.sessions_wf() && self.feeds_wf() && self.images_wf()
    }

    /// The user at index `i` is the one the lookup spec functions pick.
    pub proof fn lemma_user_at(self, i: int)
        requires
            self.users_wf(),
            0 <= i < self.users@.len(),
        ensures
            self.has_user_id(self.users@[i].id),
            self.user_with_id(self.users@[i].id) == self.users@[i],
            self.has_username(self.users@[i].username@),
            self.user_with_name(self.users@[i].username@) == self.users@[i],
    {
        let id = self.users@[i].id;
        assert(self.has_user_id(id));
        let j = choose|j: int| 0 <= j < self.users@.len() && self.users@[j].id == id;
        assert(j == i);
        let name = self.users@[i].username@;
        assert(self.has_username(name));
        let k = choose|k: int| 0 <= k < self.users@.len() && self.users@[k].username@ == name;
        assert(k == i);
    }

    /// The session at index `i` is the one its token resolves to.
    pub proof fn lemma_session_at(self, i: int)
        requires
            self.sessions_wf(),
            0 <= i < self.sessions@.len(),
        ensures
            self.has_token(self.sessions@[i].token@),
            self.session_user(self.sessions@[i].token@) == self.sessions@[i].user_id,
            self.has_session_for(self.sessions@[i].user_id),
    {
        let t = self.sessions@[i].token@;
        assert(self.has_token(t));
        let j = choose|j: int| 0 <= j < self.sessions@.len() && self.sessions@[j].token@ == t;
        assert(j == i);
    }

    /// The feed at index `i` is the one its identifier looks up.
    pub proof fn lemma_feed_at(self, i: int)
        requires
            self.feeds_wf(),
            0 <= i < self.feeds@.len(),
        ensures
            self.has_feed(self.feeds@[i].id@),
            self.feed_with_id(self.feeds@[i].id@) == self.feeds@[i],
    {
        let f = self.feeds@[i].id@;
        assert(self.has_feed(f));
        let j = choose|j: int| 0 <= j < self.feeds@.len() && self.feeds@[j].id@ == f;
        assert(j == i);
    }

    /// The image row at index `i` is the one its key looks up.
    pub proof fn lemma_image_row_at(self, i: int)
        requires
            self.images_wf(),
            0 <= i < self.images@.len(),
        ensures
            self.has_image(self.images@[i].feed_id@, self.images@[i].position),
            self.image_at(self.images@[i].feed_id@, self.images@[i].position)
                == self.images@[i].data@,
    {
        let f = self.images@[i].feed_id@;
        let p = self.images@[i].position;
        assert(self.has_image(f, p));
        let j = choose|j: int|
            0 <= j < self.images@.len() && self.images@[j].feed_id@ == f
                && self.images@[j].position == p;
        assert(j == i);
    }

    /// A fresh, empty store, as the server starts with an empty database.
    pub fn new() -> (s: Store)
        ensures
            s.wf(),
            s.users@.len() == 0,
            s.sessions@.len() == 0,
            s.feeds@.len() == 0,
            s.images@.len() == 0,
            s.next_user_id == 0,
    {
        Store {
            users: Vec::new(),
            sessions: Vec::new(),
            feeds: Vec::new(),
            images: Vec::new(),
            next_user_id: 0,
        }
    }
}

/// Relies on `uuid::Uuid::new_v4` rendered in its hyphenated form: a freshly
/// drawn random identifier, 36 characters long. Nothing is assumed about
/// which identifier comes back; callers check for themselves that it is not
/// already taken.
#[verifier::external_body]
pub(crate) fn random_id() -> (r: String)
    ensures
        r@.len() == 36,
{
    uuid::Uuid::new_v4().to_string()
}

/// Stores that hold the same user rows agree on user lookups, and — the
/// rows being keyed uniquely — on the record each key picks.
pub proof fn lemma_users_agree(a: Store, b: Store)
    requires
        a.users@ == b.users@,
        a.next_user_id == b.next_user_id,
        a.users_wf(),
    ensures
        forall|id: i64| #[trigger] b.has_user_id(id) <==> a.has_user_id(id),
        forall|n: Seq<char>| #[trigger] b.has_username(n) <==> a.has_username(n),
        forall|id: i64| #[trigger] a.has_user_id(id) ==> b.user_with_id(id) == a.user_with_id(id),
        forall|n: Seq<char>| #[trigger]
            a.has_username(n) ==> b.user_with_name(n) == a.user_with_name(n),
{
    assert(b.users_wf()) by {
        assert forall|i: int, j: int|
            #![trigger b.users@[i], b.users@[j]]
            0 <= i < b.users@.len() && 0 <= j < b.users@.len() && i != j
                implies b.users@[i].id != b.users@[j].id && b.users@[i].username@
            != b.users@[j].username@ by {
            assert(b.users@[i] == a.users@[i]);
            assert(b.users@[j] == a.users@[j]);
        }
        assert forall|i: int|
            #![trigger b.users@[i]]
            0 <= i < b.users@.len() implies 0 <= b.users@[i].id < b.next_user_id by {
            assert(b.users@[i] == a.users@[i]);
        }
    }
    assert forall|id: i64| #[trigger]
        a.has_user_id(id) implies b.user_with_id(id) == a.user_with_id(id) by {
        let k = choose|k: int| 0 <= k < a.users@.len() && a.users@[k].id == id;
        a.lemma_user_at(k);
        assert(b.users@[k] == a.users@[k]);
        b.lemma_user_at(k);
    }
    assert forall|n: Seq<char>| #[trigger]
        a.has_username(n) implies b.user_with_name(n) == a.user_with_name(n) by {
        let k = choose|k: int| 0 <= k < a.users@.len() && a.users@[k].username@ == n;
        a.lemma_user_at(k);
        assert(b.users@[k] == a.users@[k]);
        b.lemma_user_at(k);
    }
    assert forall|id: i64| #[trigger] b.has_user_id(id) <==> a.has_user_id(id) by {
        if a.has_user_id(id) {
            let k = choose|k: int| 0 <= k < a.users@.len() && a.users@[k].id == id;
            assert(b.users@[k].id == id);
        }
        if b.has_user_id(id) {
            let k = choose|k: int| 0 <= k < b.users@.len() && b.users@[k].id == id;
            assert(a.users@[k].id == id);
        }
    }
    assert forall|n: Seq<char>| #[trigger] b.has_username(n) <==> a.has_username(n) by {
        if a.has_username(n) {
            let k = choose|k: int| 0 <= k < a.users@.len() && a.users@[k].username@ == n;
            assert(b.users@[k].username@ == n);
        }
        if b.has_username(n) {
            let k = choose|k: int| 0 <= k < b.users@.len() && b.users@[k].username@ == n;
            assert(a.users@[k].username@ == n);
        }
    }
}

/// Stores that hold the same image rows agree on image lookups, and — when
/// the rows are keyed uniquely — on the bytes each key holds.
pub proof fn lemma_images_agree(a: Store, b: Store)
    requires
        a.images@ == b.images@,
        a.images_wf(),
    ensures
        forall|f: Seq<char>, p: u8| #[trigger] b.has_image(f, p) <==> a.has_image(f, p),
        forall|f: Seq<char>, p: u8| #[trigger]
            a.has_image(f, p) ==> b.image_at(f, p) == a.image_at(f, p),
        b.images_wf(),
{
    assert(b.images_wf()) by {
        assert forall|i: int, j: int|
            #![trigger b.images@[i], b.images@[j]]
            0 <= i < b.images@.len() && 0 <= j < b.images@.len() && i != j
                implies !(b.images@[i].feed_id@ == b.images@[j].feed_id@ && b.images@[i].position
            == b.images@[j].position) by {
            assert(b.images@[i] == a.images@[i]);
            assert(b.images@[j] == a.images@[j]);
        }
    }
    assert forall|f: Seq<char>, p: u8| #[trigger]
        a.has_image(f, p) implies b.image_at(f, p) == a.image_at(f, p) by {
        let k = choose|k: int|
            0 <= k < a.images@.len() && a.images@[k].feed_id@ == f && a.images@[k].position == p;
        a.lemma_image_row_at(k);
        assert(b.images@[k] == a.images@[k]);
        b.lemma_image_row_at(k);
    }
    assert forall|f: Seq<char>, p: u8| #[trigger] b.has_image(f, p) <==> a.has_image(f, p) by {
        if a.has_image(f, p) {
            let k = choose|k: int|
                0 <= k < a.images@.len() && a.images@[k].feed_id@ == f && a.images@[k].position
                    == p;
            assert(b.images@[k].feed_id@ == f && b.images@[k].position == p);
        }
        if b.has_image(f, p) {
            let k = choose|k: int|
                0 <= k < b.images@.len() && b.images@[k].feed_id@ == f && b.images@[k].position
                    == p;
            assert(a.images@[k].feed_id@ == f && a.images@[k].position == p);
        }
    }
}

/// Stores that hold the same feed rows agree on feed lookups.
pub proof fn lemma_feeds_agree(a: Store, b: Store)
    requires
        a.feeds@ == b.feeds@,
    ensures
        forall|f: Seq<char>| #[trigger] b.has_feed(f) <==> a.has_feed(f),
{
    assert forall|f: Seq<char>| #[trigger] b.has_feed(f) <==> a.has_feed(f) by {
        if a.has_feed(f) {
            let k = choose|k: int| 0 <= k < a.feeds@.len() && a.feeds@[k].id@ == f;
            assert(b.feeds@[k].id@ == f);
        }
        if b.has_feed(f) {
            let k = choose|k: int| 0 <= k < b.feeds@.len() && b.feeds@[k].id@ == f;
            assert(a.feeds@[k].id@ == f);
        }
    }
}

/// Stores that hold the same session rows agree on session lookups.
pub proof fn lemma_sessions_agree(a: Store, b: Store)
    requires
        a.sessions@ == b.sessions@,
    ensures
        forall|t: Seq<char>| #[trigger] b.has_token(t) <==> a.has_token(t),
        forall|u: i64| #[trigger] b.has_session_for(u) <==> a.has_session_for(u),
{
    assert forall|t: Seq<char>| #[trigger] b.has_token(t) <==> a.has_token(t) by {
        if a.has_token(t) {
            let k = choose|k: int| 0 <= k < a.sessions@.len() && a.sessions@[k].token@ == t;
            assert(b.sessions@[k].token@ == t);
        }
        if b.has_token(t) {
            let k = choose|k: int| 0 <= k < b.sessions@.len() && b.sessions@[k].token@ == t;
            assert(a.sessions@[k].token@ == t);
        }
    }
    assert forall|u: i64| #[trigger] b.has_session_for(u) <==> a.has_session_for(u) by {
        if a.has_session_for(u) {
            let k = choose|k: int| 0 <= k < a.sessions@.len() && a.sessions@[k].user_id == u;
            assert(b.sessions@[k].user_id == u);
        }
        if b.has_session_for(u) {
            let k = choose|k: int| 0 <= k < b.sessions@.len() && b.sessions@[k].user_id == u;
            assert(a.sessions@[k].user_id == u);
        }
    }
}

/// Appending one user with a fresh id and a fresh username preserves the
/// invariant; lookups afterwards see exactly the old users and the new one.
pub proof fn lemma_add_user(pre: Store, post: Store, v: User)
    requires
        pre.wf(),
        v.id == pre.next_user_id,
        !pre.has_username(v.username@),
        post.users@ == pre.users@.push(v),
        post.sessions@ == pre.sessions@,
        post.feeds@ == pre.feeds@,
        post.images@ == pre.images@,
        post.next_user_id == pre.next_user_id + 1,
    ensures
        post.wf(),
        forall|id: i64| #[trigger] post.has_user_id(id) <==> pre.has_user_id(id) || id == v.id,
        forall|n: Seq<char>| #[trigger] post.has_username(n) <==> pre.has_username(n) || n
            == v.username@,
        post.user_with_name(v.username@) == v,
{
    let n = pre.users@.len() as int;
    assert(post.users@[n] == v);
    assert(forall|j: int| 0 <= j < n ==> post.users@[j] == pre.users@[j]);
    assert forall|id: i64| #[trigger] post.has_user_id(id) <==> pre.has_user_id(id) || id == v.id
        by {
        if pre.has_user_id(id) {
            let k = choose|k: int| 0 <= k < pre.users@.len() && pre.users@[k].id == id;
            assert(post.users@[k].id == id);
        }
        if post.has_user_id(id) {
            let k = choose|k: int| 0 <= k < post.users@.len() && post.users@[k].id == id;
            if k < n {
                assert(pre.users@[k].id == id);
            }
        }
        if id == v.id {
            assert(post.users@[n].id == id);
        }
    }
    assert forall|m: Seq<char>| #[trigger] post.has_username(m) <==> pre.has_username(m) || m
        == v.username@ by {
        if pre.has_username(m) {
            let k = choose|k: int| 0 <= k < pre.users@.len() && pre.users@[k].username@ == m;
            assert(post.users@[k].username@ == m);
        }
        if post.has_username(m) {
            let k = choose|k: int| 0 <= k < post.users@.len() && post.users@[k].username@ == m;
            if k < n {
                assert(pre.users@[k].username@ == m);
            }
        }
        if m == v.username@ {
            assert(post.users@[n].username@ == m);
        }
    }
    assert(post.users_wf()) by {
        assert forall|i: int, j: int|
            #![trigger post.users@[i], post.users@[j]]
            0 <= i < post.users@.len() && 0 <= j < post.users@.len() && i != j
                implies post.users@[i].id != post.users@[j].id && post.users@[i].username@
            != post.users@[j].username@ by {
            if i == n {
                pre.lemma_user_at(j);
            } else if j == n {
                pre.lemma_user_at(i);
            }
        }
        assert forall|i: int|
            #![trigger post.users@[i]]
            0 <= i < post.users@.len() implies 0 <= post.users@[i].id < post.next_user_id by {
            if i < n {
                assert(post.users@[i] == pre.users@[i]);
            }
        }
    }
    assert(post.sessions_wf()) by {
        assert forall|i: int|
            #![trigger post.sessions@[i]]
            0 <= i < post.sessions@.len() implies post.has_user_id(post.sessions@[i].user_id) by {
            assert(pre.has_user_id(pre.sessions@[i].user_id));
        }
    }
    lemma_images_agree(pre, post);
    assert(post.feeds_wf()) by {
        assert forall|i: int|
            #![trigger post.feeds@[i]]
            0 <= i < post.feeds@.len() implies post.has_user_id(post.feeds@[i].user_id)
            && post.feeds@[i].image_count >= 1 by {
            assert(pre.has_user_id(pre.feeds@[i].user_id));
            assert(pre.feeds@[i].image_count >= 1);
        }
        assert forall|i: int, p: u8|
            #![trigger post.has_image(post.feeds@[i].id@, p)]
            0 <= i < post.feeds@.len() implies (post.has_image(post.feeds@[i].id@, p) <==> (
        p as int) < post.feeds@[i].image_count as int) by {
            assert(pre.has_image(pre.feeds@[i].id@, p) <==> (p as int)
                < pre.feeds@[i].image_count as int);
        }
    }
    post.lemma_user_at(n);
}

/// Appending one session for a stored user with no live session, under a
/// token nobody holds, preserves the invariant; afterwards exactly the old
/// tokens and the new one resolve, the new one to the given user.
pub proof fn lemma_add_session(pre: Store, post: Store, v: SessionRecord)
    requires
        pre.wf(),
        pre.has_user_id(v.user_id),
        !pre.has_token(v.token@),
        !pre.has_session_for(v.user_id),
        post.sessions@ == pre.sessions@.push(v),
        post.users@ == pre.users@,
        post.feeds@ == pre.feeds@,
        post.images@ == pre.images@,
        post.next_user_id == pre.next_user_id,
    ensures
        post.wf(),
        forall|t: Seq<char>| #[trigger] post.has_token(t) <==> pre.has_token(t) || t == v.token@,
        post.session_user(v.token@) == v.user_id,
        forall|t: Seq<char>|
            t != v.token@ && #[trigger] pre.has_token(t) ==> post.session_user(t)
                == pre.session_user(t),
        forall|u: i64| #[trigger] post.has_session_for(u) <==> pre.has_session_for(u) || u
            == v.user_id,
{
    let n = pre.sessions@.len() as int;
    assert(post.sessions@[n] == v);
    assert(forall|j: int| 0 <= j < n ==> post.sessions@[j] == pre.sessions@[j]);
    lemma_users_agree(pre, post);
    assert forall|t: Seq<char>| #[trigger] post.has_token(t) <==> pre.has_token(t) || t
        == v.token@ by {
        if pre.has_token(t) {
            let k = choose|k: int| 0 <= k < pre.sessions@.len() && pre.sessions@[k].token@ == t;
            assert(post.sessions@[k].token@ == t);
        }
        if post.has_token(t) {
            let k = choose|k: int| 0 <= k < post.sessions@.len() && post.sessions@[k].token@ == t;
            if k < n {
                assert(pre.sessions@[k].token@ == t);
            }
        }
        if t == v.token@ {
            assert(post.sessions@[n].token@ == t);
        }
    }
    assert forall|u: i64| #[trigger] post.has_session_for(u) <==> pre.has_session_for(u) || u
        == v.user_id by {
        if pre.has_session_for(u) {
            let k = choose|k: int| 0 <= k < pre.sessions@.len() && pre.sessions@[k].user_id == u;
            assert(post.sessions@[k].user_id == u);
        }
        if post.has_session_for(u) {
            let k = choose|k: int| 0 <= k < post.sessions@.len() && post.sessions@[k].user_id == u;
            if k < n {
                assert(pre.sessions@[k].user_id == u);
            }
        }
        if u == v.user_id {
            assert(post.sessions@[n].user_id == u);
        }
    }
    assert(post.sessions_wf()) by {
        assert forall|i: int, j: int|
            #![trigger post.sessions@[i], post.sessions@[j]]
            0 <= i < post.sessions@.len() && 0 <= j < post.sessions@.len() && i != j
                implies post.sessions@[i].token@ != post.sessions@[j].token@
            && post.sessions@[i].user_id != post.sessions@[j].user_id by {
            if i == n {
                pre.lemma_session_at(j);
            } else if j == n {
                pre.lemma_session_at(i);
            }
        }
        assert forall|i: int|
            #![trigger post.sessions@[i]]
            0 <= i < post.sessions@.len() implies post.has_user_id(post.sessions@[i].user_id) by {
            if i < n {
                assert(pre.has_user_id(pre.sessions@[i].user_id));
            }
        }
    }
    post.lemma_session_at(n);
    assert forall|t: Seq<char>|
        t != v.token@ && #[trigger] pre.has_token(t) implies post.session_user(t)
        == pre.session_user(t) by {
        let k = choose|k: int| 0 <= k < pre.sessions@.len() && pre.sessions@[k].token@ == t;
        pre.lemma_session_at(k);
        post.lemma_session_at(k);
    }
    lemma_images_agree(pre, post);
    lemma_feeds_agree(pre, post);
    assert(post.users_wf());
    assert(post.feeds_wf()) by {
        assert forall|i: int|
            #![trigger post.feeds@[i]]
            0 <= i < post.feeds@.len() implies post.has_user_id(post.feeds@[i].user_id)
            && post.feeds@[i].image_count >= 1 by {
            assert(pre.has_user_id(pre.feeds@[i].user_id));
            assert(pre.feeds@[i].image_count >= 1);
        }
        assert forall|i: int, p: u8|
            #![trigger post.has_image(post.feeds@[i].id@, p)]
            0 <= i < post.feeds@.len() implies (post.has_image(post.feeds@[i].id@, p) <==> (
        p as int) < post.feeds@[i].image_count as int) by {
            assert(pre.has_image(pre.feeds@[i].id@, p) <==> (p as int)
                < pre.feeds@[i].image_count as int);
        }
    }
}

/// Removing the session at index `k` preserves the invariant; afterwards
/// exactly the other tokens resolve, each to the same user as before, and
/// the removed session's user holds no live session.
pub proof fn lemma_remove_session(pre: Store, post: Store, k: int)
    requires
        pre.wf(),
        0 <= k < pre.sessions@.len(),
        post.sessions@ == pre.sessions@.remove(k),
        post.users@ == pre.users@,
        post.feeds@ == pre.feeds@,
        post.images@ == pre.images@,
        post.next_user_id == pre.next_user_id,
    ensures
        post.wf(),
        forall|t: Seq<char>| #[trigger] post.has_token(t) <==> pre.has_token(t) && t
            != pre.sessions@[k].token@,
        forall|t: Seq<char>| #[trigger] post.has_token(t) ==> post.session_user(t)
            == pre.session_user(t),
        forall|u: i64| #[trigger] post.has_session_for(u) <==> pre.has_session_for(u) && u
            != pre.sessions@[k].user_id,
{
    pre.sessions@.remove_ensures(k);
    let n = post.sessions@.len() as int;
    lemma_users_agree(pre, post);
    assert forall|t: Seq<char>| #[trigger] post.has_token(t) <==> pre.has_token(t) && t
        != pre.sessions@[k].token@ by {
        if post.has_token(t) {
            let j = choose|j: int| 0 <= j < post.sessions@.len() && post.sessions@[j].token@ == t;
            let jj = if j < k {
                j
            } else {
                j + 1
            };
            assert(pre.sessions@[jj].token@ == t);
            assert(jj != k);
            pre.lemma_session_at(jj);
            pre.lemma_session_at(k);
        }
        if pre.has_token(t) && t != pre.sessions@[k].token@ {
            let j = choose|j: int| 0 <= j < pre.sessions@.len() && pre.sessions@[j].token@ == t;
            assert(j != k);
            if j < k {
                assert(post.sessions@[j].token@ == t);
            } else {
                assert(post.sessions@[j - 1].token@ == t);
            }
        }
    }
    assert forall|u: i64| #[trigger] post.has_session_for(u) <==> pre.has_session_for(u) && u
        != pre.sessions@[k].user_id by {
        if post.has_session_for(u) {
            let j = choose|j: int| 0 <= j < post.sessions@.len() && post.sessions@[j].user_id == u;
            let jj = if j < k {
                j
            } else {
                j + 1
            };
            assert(pre.sessions@[jj].user_id == u);
            assert(jj != k);
        }
        if pre.has_session_for(u) && u != pre.sessions@[k].user_id {
            let j = choose|j: int| 0 <= j < pre.sessions@.len() && pre.sessions@[j].user_id == u;
            assert(j != k);
            if j < k {
                assert(post.sessions@[j].user_id == u);
            } else {
                assert(post.sessions@[j - 1].user_id == u);
            }
        }
    }
    assert(post.sessions_wf()) by {
        assert forall|i: int, j: int|
            #![trigger post.sessions@[i], post.sessions@[j]]
            0 <= i < post.sessions@.len() && 0 <= j < post.sessions@.len() && i != j
                implies post.sessions@[i].token@ != post.sessions@[j].token@
            && post.sessions@[i].user_id != post.sessions@[j].user_id by {
            let ii = if i < k {
                i
            } else {
                i + 1
            };
            let jj = if j < k {
                j
            } else {
                j + 1
            };
            assert(post.sessions@[i] == pre.sessions@[ii]);
            assert(post.sessions@[j] == pre.sessions@[jj]);
        }
        assert forall|i: int|
            #![trigger post.sessions@[i]]
            0 <= i < post.sessions@.len() implies post.has_user_id(post.sessions@[i].user_id) by {
            let ii = if i < k {
                i
            } else {
                i + 1
            };
            assert(post.sessions@[i] == pre.sessions@[ii]);
            assert(pre.has_user_id(pre.sessions@[ii].user_id));
        }
    }
    assert forall|t: Seq<char>| #[trigger] post.has_token(t) implies post.session_user(t)
        == pre.session_user(t) by {
        let j = choose|j: int| 0 <= j < post.sessions@.len() && post.sessions@[j].token@ == t;
        let jj = if j < k {
            j
        } else {
            j + 1
        };
        assert(post.sessions@[j] == pre.sessions@[jj]);
        post.lemma_session_at(j);
        pre.lemma_session_at(jj);
    }
    lemma_images_agree(pre, post);
    assert(post.users_wf());
    assert(post.feeds_wf()) by {
        assert forall|i: int|
            #![trigger post.feeds@[i]]
            0 <= i < post.feeds@.len() implies post.has_user_id(post.feeds@[i].user_id)
            && post.feeds@[i].image_count >= 1 by {
            assert(pre.has_user_id(pre.feeds@[i].user_id));
            assert(pre.feeds@[i].image_count >= 1);
        }
        assert forall|i: int, p: u8|
            #![trigger post.has_image(post.feeds@[i].id@, p)]
            0 <= i < post.feeds@.len() implies (post.has_image(post.feeds@[i].id@, p) <==> (
        p as int) < post.feeds@[i].image_count as int) by {
            assert(pre.has_image(pre.feeds@[i].id@, p) <==> (p as int)
                < pre.feeds@[i].image_count as int);
        }
    }
    assert(post.images_wf());
}

/// Appending one image row under a feed identifier that no feed record holds
/// and at a position not yet taken preserves the invariant; lookups
/// afterwards see exactly the old rows and the new one.
pub proof fn lemma_add_image(pre: Store, post: Store, v: ImageRecord)
    requires
        pre.wf(),
        !pre.has_feed(v.feed_id@),
        !pre.has_image(v.feed_id@, v.position),
        post.images@ == pre.images@.push(v),
        post.users@ == pre.users@,
        post.sessions@ == pre.sessions@,
        post.feeds@ == pre.feeds@,
        post.next_user_id == pre.next_user_id,
    ensures
        post.wf(),
        forall|f: Seq<char>, p: u8| #[trigger]
            post.has_image(f, p) <==> pre.has_image(f, p) || (f == v.feed_id@ && p == v.position),
        post.image_at(v.feed_id@, v.position) == v.data@,
        forall|f: Seq<char>, p: u8| #[trigger]
            pre.has_image(f, p) ==> post.image_at(f, p) == pre.image_at(f, p),
{
    let n = pre.images@.len() as int;
    assert(post.images@[n] == v);
    assert(forall|j: int| 0 <= j < n ==> post.images@[j] == pre.images@[j]);
    lemma_users_agree(pre, post);
    lemma_sessions_agree(pre, post);
    lemma_feeds_agree(pre, post);
    assert forall|f: Seq<char>, p: u8| #[trigger]
        post.has_image(f, p) <==> pre.has_image(f, p) || (f == v.feed_id@ && p == v.position) by {
        if pre.has_image(f, p) {
            let kk = choose|kk: int|
                0 <= kk < pre.images@.len() && pre.images@[kk].feed_id@ == f
                    && pre.images@[kk].position == p;
            assert(post.images@[kk].feed_id@ == f && post.images@[kk].position == p);
        }
        if post.has_image(f, p) {
            let kk = choose|kk: int|
                0 <= kk < post.images@.len() && post.images@[kk].feed_id@ == f
                    && post.images@[kk].position == p;
            if kk < n {
                assert(pre.images@[kk].feed_id@ == f && pre.images@[kk].position == p);
            }
        }
        if f == v.feed_id@ && p == v.position {
            assert(post.images@[n].feed_id@ == f && post.images@[n].position == p);
        }
    }
    assert(post.images_wf()) by {
        assert forall|i: int, j: int|
            #![trigger post.images@[i], post.images@[j]]
            0 <= i < post.images@.len() && 0 <= j < post.images@.len() && i != j
                implies !(post.images@[i].feed_id@ == post.images@[j].feed_id@
            && post.images@[i].position == post.images@[j].position) by {
            if i == n {
                pre.lemma_image_row_at(j);
            } else if j == n {
                pre.lemma_image_row_at(i);
            }
        }
    }
    post.lemma_image_row_at(n);
    assert forall|f: Seq<char>, p: u8| #[trigger]
        pre.has_image(f, p) implies post.image_at(f, p) == pre.image_at(f, p) by {
        let kk = choose|kk: int|
            0 <= kk < pre.images@.len() && pre.images@[kk].feed_id@ == f
                && pre.images@[kk].position == p;
        pre.lemma_image_row_at(kk);
        post.lemma_image_row_at(kk);
    }
    assert(post.users_wf());
    assert(post.sessions_wf()) by {
        assert forall|i: int|
            #![trigger post.sessions@[i]]
            0 <= i < post.sessions@.len() implies post.has_user_id(post.sessions@[i].user_id) by {
            assert(pre.has_user_id(pre.sessions@[i].user_id));
        }
    }
    assert(post.feeds_wf()) by {
        assert forall|i: int|
            #![trigger post.feeds@[i]]
            0 <= i < post.feeds@.len() implies post.has_user_id(post.feeds@[i].user_id)
            && post.feeds@[i].image_count >= 1 by {
            assert(pre.has_user_id(pre.feeds@[i].user_id));
            assert(pre.feeds@[i].image_count >= 1);
        }
        assert forall|i: int, p: u8|
            #![trigger post.has_image(post.feeds@[i].id@, p)]
            0 <= i < post.feeds@.len() implies (post.has_image(post.feeds@[i].id@, p) <==> (
        p as int) < post.feeds@[i].image_count as int) by {
            pre.lemma_feed_at(i);
            assert(pre.feeds@[i].id@ != v.feed_id@);
            assert(pre.has_image(pre.feeds@[i].id@, p) <==> (p as int)
                < pre.feeds@[i].image_count as int);
        }
    }
}

/// Appending a feed record whose identifier is fresh, whose author is
/// stored, whose caption is non-empty, which is no older than every stored
/// feed, and whose image rows are already exactly the positions below its
/// count preserves the invariant.
pub proof fn lemma_add_feed(pre: Store, post: Store, v: Feed)
    requires
        pre.wf(),
        !pre.has_feed(v.id@),
        pre.has_user_id(v.user_id),
        v.image_count >= 1,
        v.caption@.len() > 0,
        forall|i: int| 0 <= i < pre.feeds@.len() ==> #[trigger] pre.feeds@[i].created_at
            <= v.created_at,
        forall|p: u8| #[trigger] pre.has_image(v.id@, p) <==> (p as int) < v.image_count as int,
        post.feeds@ == pre.feeds@.push(v),
        post.users@ == pre.users@,
        post.sessions@ == pre.sessions@,
        post.images@ == pre.images@,
        post.next_user_id == pre.next_user_id,
    ensures
        post.wf(),
        forall|f: Seq<char>| #[trigger] post.has_feed(f) <==> pre.has_feed(f) || f == v.id@,
        post.feed_with_id(v.id@) == v,
{
    let n = pre.feeds@.len() as int;
    assert(post.feeds@[n] == v);
    assert(forall|j: int| 0 <= j < n ==> post.feeds@[j] == pre.feeds@[j]);
    lemma_users_agree(pre, post);
    lemma_sessions_agree(pre, post);
    lemma_images_agree(pre, post);
    assert forall|f: Seq<char>| #[trigger] post.has_feed(f) <==> pre.has_feed(f) || f == v.id@ by {
        if pre.has_feed(f) {
            let k = choose|k: int| 0 <= k < pre.feeds@.len() && pre.feeds@[k].id@ == f;
            assert(post.feeds@[k].id@ == f);
        }
        if post.has_feed(f) {
            let k = choose|k: int| 0 <= k < post.feeds@.len() && post.feeds@[k].id@ == f;
            if k < n {
                assert(pre.feeds@[k].id@ == f);
            }
        }
        if f == v.id@ {
            assert(post.feeds@[n].id@ == f);
        }
    }
    assert(post.feeds_wf()) by {
        assert forall|i: int, j: int|
            #![trigger post.feeds@[i], post.feeds@[j]]
            0 <= i < post.feeds@.len() && 0 <= j < post.feeds@.len() && i != j
                implies post.feeds@[i].id@ != post.feeds@[j].id@ by {
            if i == n {
                pre.lemma_feed_at(j);
            } else if j == n {
                pre.lemma_feed_at(i);
            }
        }
        assert forall|i: int|
            #![trigger post.feeds@[i]]
            0 <= i < post.feeds@.len() implies post.has_user_id(post.feeds@[i].user_id)
            && post.feeds@[i].image_count >= 1 by {
            if i < n {
                assert(pre.has_user_id(pre.feeds@[i].user_id));
                assert(pre.feeds@[i].image_count >= 1);
            }
        }
        assert forall|i: int|
            #![trigger post.feeds@[i]]
            0 <= i < post.feeds@.len() implies post.feeds@[i].caption@.len() > 0 by {
            if i < n {
                assert(pre.feeds@[i].caption@.len() > 0);
            }
        }
        assert forall|i: int, j: int|
            #![trigger post.feeds@[i], post.feeds@[j]]
            0 <= i <= j < post.feeds@.len() implies post.feeds@[i].created_at
            <= post.feeds@[j].created_at by {
            if j < n {
                assert(pre.feeds@[i].created_at <= pre.feeds@[j].created_at);
            } else if i < n {
                assert(pre.feeds@[i].created_at <= v.created_at);
            }
        }
        assert forall|i: int, p: u8|
            #![trigger post.has_image(post.feeds@[i].id@, p)]
            0 <= i < post.feeds@.len() implies (post.has_image(post.feeds@[i].id@, p) <==> (
        p as int) < post.feeds@[i].image_count as int) by {
            if i < n {
                assert(pre.has_image(pre.feeds@[i].id@, p) <==> (p as int)
                    < pre.feeds@[i].image_count as int);
            } else {
                assert(pre.has_image(v.id@, p) <==> (p as int) < v.image_count as int);
            }
        }
    }
    post.lemma_feed_at(n);
    assert(post.users_wf());
    assert(post.sessions_wf()) by {
        assert forall|i: int|
            #![trigger post.sessions@[i]]
            0 <= i < post.sessions@.len() implies post.has_user_id(post.sessions@[i].user_id) by {
            assert(pre.has_user_id(pre.sessions@[i].user_id));
        }
    }
    assert(post.images_wf());
}

} // verus!
