//! Users: the account record, registration, and lookup by username.

use vstd::prelude::*;

use crate::{Store, StoreError};

verus! {

/// An account record. The password is stored in the clear, exactly as the
/// backend keeps it; this is a known weakness of the design, kept as such.
pub struct User {
    pub id: i64,
    pub username: String,
    pub password: String,
}

impl Clone for User {
    fn clone(&self) -> (r: Self)
        ensures
            r == *self,
    {
        User { id: self.id, username: self.username.clone(), password: self.password.clone() }
    }
}

/// The registration request body: a username and a password.
pub struct CreateUserBody {
    pub username: String,
    pub password: String,
}

/// The outcome of the registration endpoint.
#[derive(Debug)]
pub enum CreateUserError {
    /// A user with the requested username already exists.
    Conflict,
    /// The store refused the insert for any other reason.
    Internal,
}

impl Store {
    /// Inserts a new user under a fresh id. Fails with `Conflict`, changing
    /// nothing, exactly when the username is already taken.
    pub fn create_user(&mut self, username: String, password: String) -> (r: Result<
        (),
        StoreError,
    >)
        requires
            old(self).wf(),
            old(self).next_user_id < i64::MAX,
        ensures
            final(self).wf(),
            final(self).sessions == old(self).sessions,
            final(self).feeds == old(self).feeds,
            final(self).images == old(self).images,
            match r {
                Ok(()) => {
                    &&& !old(self).has_username(username@)
                    &&& final(self).users@ == old(self).users@.push(
                        User { id: old(self).next_user_id, username, password },
                    )
                    &&& final(self).has_username(username@)
                    &&& final(self).user_with_name(username@).password == password
                    &&& final(self).next_user_id == old(self).next_user_id + 1
                },
                Err(e) => {
                    &&& e == StoreError::Conflict
                    &&& old(self).has_username(username@)
                    &&& *final(self) == *old(self)
                },
            },
    {
        let ghost pre = *self;
        let mut i: usize = 0;
        while i < self.users.len()
            invariant
                *self == pre,
                pre == *old(self),
                pre.wf(),
                pre.next_user_id < i64::MAX,
                i <= self.users@.len(),
                forall|j: int| 0 <= j < i ==> pre.users@[j].username@ != username@,
            decreases self.users@.len() - i,
        {
            if self.users[i].username == username {
                proof {
                    assert(pre.has_username(username@));
                }
                return Err(StoreError::Conflict);
            }
            i += 1;
        }
        proof {
            assert(!pre.has_username(username@)) by {
                if pre.has_username(username@) {
                    let k = choose|k: int|
                        0 <= k < pre.users@.len() && pre.users@[k].username@ == username@;
                }
            }
        }
        let id = self.next_user_id;
        self.next_user_id = self.next_user_id + 1;
        self.users.push(User { id, username, password });
        proof {
            let v = User { id: pre.next_user_id, username, password };
            crate::lemma_add_user(pre, *self, v);
        }
        Ok(())
    }

    /// Looks a user up by exact username. Returns the full record, password
    /// included, exactly when the username is present.
    pub fn find_user(&self, username: &String) -> (r: Result<User, StoreError>)
        requires
            self.wf(),
        ensures
            match r {
                Ok(u) => self.has_username(username@) && u == self.user_with_name(username@),
                Err(e) => e == StoreError::NotFound && !self.has_username(username@),
            },
    {
        let mut i: usize = 0;
        while i < self.users.len()
            invariant
                self.wf(),
                forall|j: int| 0 <= j < i ==> self.users@[j].username@ != username@,
                i <= self.users.len(),
            decreases self.users.len() - i,
        {
            if self.users[i].username == *username {
                proof {
                    self.lemma_user_at(i as int);
                }
                return Ok(self.users[i].clone());
            }
            i += 1;
        }
        proof {
            assert(!self.has_username(username@)) by {
                if self.has_username(username@) {
                    let k = choose|k: int|
                        0 <= k < self.users@.len() && self.users@[k].username@ == username@;
                }
            }
        }
        Err(StoreError::NotFound)
    }

    /// Looks a user up by id; the session resolver joins through this.
    pub(crate) fn user_by_id(&self, id: i64) -> (r: Option<User>)
        requires
            self.wf(),
        ensures
            match r {
                Some(u) => self.has_user_id(id) && u == self.user_with_id(id),
                None => !self.has_user_id(id),
            },
    {
        let mut i: usize = 0;
        while i < self.users.len()
            invariant
                self.wf(),
                i <= self.users@.len(),
                forall|j: int| 0 <= j < i ==> self.users@[j].id != id,
            decreases self.users@.len() - i,
        {
            if self.users[i].id == id {
                proof {
                    self.lemma_user_at(i as int);
                }
                return Some(self.users[i].clone());
            }
            i += 1;
        }
        proof {
            assert(!self.has_user_id(id)) by {
                if self.has_user_id(id) {
                    let k = choose|k: int| 0 <= k < self.users@.len() && self.users@[k].id == id;
                }
            }
        }
        None
    }
}

/// The registration endpoint core: refuse a taken username with `Conflict`,
/// otherwise store the account and return the stored record.
pub fn create(store: &mut Store, body: &CreateUserBody) -> (r: Result<User, CreateUserError>)
    requires
        old(store).wf(),
        old(store).next_user_id < i64::MAX,
    ensures
        final(store).wf(),
        final(store).sessions == old(store).sessions,
        final(store).feeds == old(store).feeds,
        final(store).images == old(store).images,
        match r {
            Ok(u) => {
                &&& !old(store).has_username(body.username@)
                &&& final(store).has_username(body.username@)
                &&& u == final(store).user_with_name(body.username@)
                &&& u.username == body.username
                &&& u.password == body.password
            },
            Err(e) => e == CreateUserError::Conflict && old(store).has_username(body.username@)
                && *final(store) == *old(store),
        },
{
    if let Ok(_existing) = store.find_user(&body.username) {
        return Err(CreateUserError::Conflict);
    }
    let username = body.username.clone();
    let password = body.password.clone();
    match store.create_user(username, password) {
        Ok(()) => {},
        Err(_) => {
            return Err(CreateUserError::Conflict);
        },
    }
    match store.find_user(&body.username) {
        Ok(user) => Ok(user),
        Err(_) => Err(CreateUserError::Internal),
    }
}

/// The user-lookup endpoint core: the record by username, or `NotFound`.
pub fn get(store: &Store, username: &String) -> (r: Result<User, StoreError>)
    requires
        store.wf(),
    ensures
        match r {
            Ok(u) => store.has_username(username@) && u == store.user_with_name(username@),
            Err(e) => e == StoreError::NotFound && !store.has_username(username@),
        },
{
    store.find_user(username)
}

} // verus!
