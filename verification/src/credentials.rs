//! The credential store: who the users are and how a password is checked.
//!
//! The store keeps, for each user, the digest that a slow salted hash gave
//! the password. Computing that digest is left to the caller; comparing two
//! digests is done here, without stopping at the first difference.

use crate::error::AuthError;
use crate::table::{
    distinct_keys, holds, lemma_key_has_row, lemma_push_row, lemma_remove_row, lemma_row_recorded,
    lemma_update_row, row_of, table_of,
};
use vstd::prelude::*;
use vstd::slice::slice_to_vec;

verus! {

/// A user of the service.
#[derive(Debug, PartialEq, Eq)]
pub struct User {
    /// The user's identifier, unique in the store.
    pub id: u64,
    /// The name under which the user logs in, unique in the store.
    pub username: String,
    /// The digest of the user's password.
    pub password_digest: Vec<u8>,
    /// Whether the user may act on what other users own.
    pub elevated: bool,
    /// When the user was registered, in seconds.
    pub created_at: u64,
    /// When the user was last changed, in seconds.
    pub updated_at: u64,
}

/// What a user record holds.
pub struct UserRecord {
    pub id: u64,
    pub username: Seq<char>,
    pub password_digest: Seq<u8>,
    pub elevated: bool,
    pub created_at: u64,
    pub updated_at: u64,
}

impl View for User {
    type V = UserRecord;

    open spec fn view(&self) -> UserRecord {
        UserRecord {
            id: self.id,
            username: self.username@,
            password_digest: self.password_digest@,
            elevated: self.elevated,
            created_at: self.created_at,
            updated_at: self.updated_at,
        }
    }
}

impl Clone for User {
    /// A copy of this user.
    fn clone(&self) -> (copy: User)
        ensures
            copy@ == self@,
    {
        User {
            id: self.id,
            username: self.username.clone(),
            password_digest: slice_to_vec(self.password_digest.as_slice()),
            elevated: self.elevated,
            created_at: self.created_at,
            updated_at: self.updated_at,
        }
    }
}

/// The users of a store, by identifier.
pub type Directory = Map<u64, UserRecord>;

/// The constraints that every directory meets: a record is filed under its
/// own identifier, and no two users share a name.
pub open spec fn directory_wf(directory: Directory) -> bool {
    &&& forall|id: u64| #[trigger] directory.contains_key(id) ==> directory[id].id == id
    &&& forall|a: u64, b: u64|
        #![trigger directory.contains_key(a), directory.contains_key(b)]
        directory.contains_key(a) && directory.contains_key(b) && directory[a].username
            == directory[b].username ==> a == b
}

/// Whether some user goes by `name`.
pub open spec fn named(directory: Directory, name: Seq<char>) -> bool {
    exists|id: u64| #[trigger] directory.contains_key(id) && directory[id].username == name
}

/// The user who goes by `name`.
pub open spec fn id_named(directory: Directory, name: Seq<char>) -> u64 {
    choose|id: u64| #[trigger] directory.contains_key(id) && directory[id].username == name
}

/// Whether a user other than `id` goes by `name`.
pub open spec fn named_by_other(directory: Directory, name: Seq<char>, id: u64) -> bool {
    exists|other: u64| #[trigger]
        directory.contains_key(other) && other != id && directory[other].username == name
}

/// Whether a search that leaves out the row at `skip` leaves out the row
/// at `k`.
pub open spec fn passed_over(skip: Option<usize>, k: int) -> bool {
    skip matches Some(i) && i as int == k
}

/// The identifier under which a user is kept.
pub open spec fn user_key() -> spec_fn(UserRecord) -> u64 {
    |user: UserRecord| user.id
}

/// What the rows hold, row by row.
pub open spec fn records(rows: Seq<User>) -> Seq<UserRecord> {
    rows.map_values(|user: User| user@)
}

/// The directory that the rows record.
pub open spec fn directory_of(rows: Seq<User>) -> Directory {
    table_of(records(rows), user_key())
}

/// Whether the rows make a store: distinct identifiers, and a directory
/// that meets its constraints.
pub open spec fn users_wf(rows: Seq<User>) -> bool {
    distinct_keys(records(rows), user_key()) && directory_wf(directory_of(rows))
}

/// Whether `user` may be added to `directory`: neither its identifier nor
/// its name is taken.
pub open spec fn insertable(directory: Directory, user: UserRecord) -> bool {
    !directory.contains_key(user.id) && !named(directory, user.username)
}

/// Whether the rows can be loaded one after the other: each may be added to
/// the directory of the rows before it.
pub open spec fn users_loadable(rows: Seq<User>) -> bool
    decreases rows.len(),
{
    rows.len() == 0 || (users_loadable(rows.drop_last()) && insertable(
        directory_of(rows.drop_last()),
        rows.last()@,
    ))
}

/// Rows that can be loaded can be loaded up to any row, and the next row
/// may be added there.
pub proof fn lemma_users_loadable_prefix(rows: Seq<User>, n: int)
    requires
        users_loadable(rows),
        0 <= n <= rows.len(),
    ensures
        users_loadable(rows.subrange(0, n)),
        n < rows.len() ==> insertable(directory_of(rows.subrange(0, n)), rows[n]@),
    decreases rows.len(),
{
    if n == rows.len() {
        assert(rows.subrange(0, n) =~= rows);
    } else if n == rows.len() - 1 {
        assert(rows.subrange(0, n) =~= rows.drop_last());
    } else {
        lemma_users_loadable_prefix(rows.drop_last(), n);
        assert(rows.drop_last().subrange(0, n) =~= rows.subrange(0, n));
    }
}

/// Rows that hold the same records stand for the same directory.
pub proof fn lemma_same_records(a: Seq<User>, b: Seq<User>)
    requires
        records(a) == records(b),
    ensures
        directory_of(a) == directory_of(b),
{
}

/// Adding a user whose identifier and name are free keeps the directory's
/// constraints.
pub proof fn lemma_insert_keeps_directory(directory: Directory, user: UserRecord)
    requires
        directory_wf(directory),
        insertable(directory, user),
    ensures
        directory_wf(directory.insert(user.id, user)),
{
    let after = directory.insert(user.id, user);
    assert forall|a: u64, b: u64|
        #![trigger after.contains_key(a), after.contains_key(b)]
        after.contains_key(a) && after.contains_key(b) && after[a].username
            == after[b].username implies a == b by {
        if a != b {
            if a == user.id {
                assert(directory.contains_key(b));
            } else if b == user.id {
                assert(directory.contains_key(a));
            } else {
                assert(directory.contains_key(a) && directory.contains_key(b));
            }
        }
    }
}

/// Replacing the record of a user by one whose name no other user goes by
/// keeps the directory's constraints.
pub proof fn lemma_replace_keeps_directory(directory: Directory, user: UserRecord)
    requires
        directory_wf(directory),
        directory.contains_key(user.id),
        !named_by_other(directory, user.username, user.id),
    ensures
        directory_wf(directory.insert(user.id, user)),
{
    let after = directory.insert(user.id, user);
    assert forall|a: u64, b: u64|
        #![trigger after.contains_key(a), after.contains_key(b)]
        after.contains_key(a) && after.contains_key(b) && after[a].username
            == after[b].username implies a == b by {
        if a != b {
            if a == user.id {
                assert(directory.contains_key(b));
            } else if b == user.id {
                assert(directory.contains_key(a));
            } else {
                assert(directory.contains_key(a) && directory.contains_key(b));
            }
        }
    }
}

/// Taking a user out keeps the directory's constraints.
pub proof fn lemma_remove_keeps_directory(directory: Directory, id: u64)
    requires
        directory_wf(directory),
    ensures
        directory_wf(directory.remove(id)),
{
    let after = directory.remove(id);
    assert forall|a: u64, b: u64|
        #![trigger after.contains_key(a), after.contains_key(b)]
        after.contains_key(a) && after.contains_key(b) && after[a].username
            == after[b].username implies a == b by {
        assert(directory.contains_key(a) && directory.contains_key(b));
    }
}

/// Whether two digests are the same, looking at every byte of both whatever
/// the bytes before held.
pub fn digests_match(stored: &[u8], candidate: &[u8]) -> (same: bool)
    ensures
        same == (stored@ == candidate@),
{
    if stored.len() != candidate.len() {
        return false;
    }
    let mut difference: u8 = 0;
    let mut i: usize = 0;
    assert(stored@.subrange(0, 0) =~= candidate@.subrange(0, 0));
    while i < stored.len()
        invariant
            i <= stored@.len(),
            stored@.len() == candidate@.len(),
            difference == 0 <==> stored@.subrange(0, i as int) == candidate@.subrange(0, i as int),
        decreases stored@.len() - i,
    {
        let a: u8 = stored[i];
        let b: u8 = candidate[i];
        let ghost before = difference;
        difference = difference | (a ^ b);
        proof {
            assert((before | (a ^ b)) == 0 <==> (before == 0 && a == b)) by (bit_vector);
            let s = stored@.subrange(0, i + 1);
            let c = candidate@.subrange(0, i + 1);
            assert(s.drop_last() =~= stored@.subrange(0, i as int));
            assert(c.drop_last() =~= candidate@.subrange(0, i as int));
            assert(s.last() == a && c.last() == b);
            if before == 0 && a == b {
                assert(s =~= c);
            }
        }
        i = i + 1;
    }
    assert(stored@.subrange(0, i as int) =~= stored@);
    assert(candidate@.subrange(0, i as int) =~= candidate@);
    difference == 0
}

/// The users that the service knows.
pub struct CredentialStore {
    rows: Vec<User>,
}

impl View for CredentialStore {
    type V = Directory;

    open spec fn view(&self) -> Directory {
        directory_of(self.rows())
    }
}

impl CredentialStore {
    /// The rows of the store, in the order in which they were added.
    pub closed spec fn rows(&self) -> Seq<User> {
        self.rows@
    }

    /// Whether the store is sound: see `users_wf`. Every store that this
    /// module hands out is.
    pub open spec fn wf(&self) -> bool {
        users_wf(self.rows())
    }

    /// A store without users.
    pub fn new() -> (store: CredentialStore)
        ensures
            store.wf(),
            store@ == Map::<u64, UserRecord>::empty(),
            store.rows() == Seq::<User>::empty(),
    {
        CredentialStore { rows: Vec::new() }
    }

    /// The place of the row for `id`.
    fn position(&self, id: u64) -> (place: Option<usize>)
        requires
            self.wf(),
        ensures
            place matches Some(i) ==> i < self.rows@.len() && self.rows@[i as int].id == id
                && self@.contains_key(id) && self@[id] == self.rows@[i as int]@,
            place is None ==> !self@.contains_key(id),
    {
        let mut i: usize = 0;
        while i < self.rows.len()
            invariant
                i <= self.rows@.len(),
                self.wf(),
                forall|k: int| 0 <= k < i ==> self.rows@[k].id != id,
            decreases self.rows@.len() - i,
        {
            if self.rows[i].id == id {
                proof {
                    lemma_row_recorded(records(self.rows@), user_key(), i as int);
                }
                return Some(i);
            }
            i = i + 1;
        }
        proof {
            if self@.contains_key(id) {
                lemma_key_has_row(records(self.rows@), user_key(), id);
            }
        }
        None
    }

    /// The place of the row of the user who goes by `name`, leaving out the
    /// row at `skip`.
    fn position_named(&self, name: &str, skip: Option<usize>) -> (place: Option<usize>)
        requires
            self.wf(),
        ensures
            place matches Some(i) ==> i < self.rows@.len() && self.rows@[i as int].username@
                == name@ && !passed_over(skip, i as int),
            place is None ==> forall|k: int|
                0 <= k < self.rows@.len() && !passed_over(skip, k)
                    ==> #[trigger] self.rows@[k].username@ != name@,
    {
        let wanted = name.to_owned();
        let mut i: usize = 0;
        while i < self.rows.len()
            invariant
                i <= self.rows@.len(),
                wanted@ == name@,
                forall|k: int|
                    0 <= k < i && !passed_over(skip, k) ==> #[trigger] self.rows@[k].username@
                        != name@,
            decreases self.rows@.len() - i,
        {
            if skip != Some(i) && self.rows[i].username == wanted {
                return Some(i);
            }
            i = i + 1;
        }
        None
    }

    /// The user who goes by `name`, or `NotFound`.
    pub fn find_by_username(&self, name: &str) -> (found: Result<User, AuthError>)
        requires
            self.wf(),
        ensures
            found matches Ok(user) ==> named(self@, name@) && user.id == id_named(self@, name@)
                && user@ == self@[user.id],
            found matches Err(e) ==> e == AuthError::NotFound && !named(self@, name@),
    {
        match self.position_named(name, None) {
            Some(i) => {
                proof {
                    self.lemma_named_row(i as int, name@);
                }
                Ok(self.rows[i].clone())
            },
            None => {
                proof {
                    self.lemma_unnamed(name@, None);
                }
                Err(AuthError::NotFound)
            },
        }
    }

    /// The row that goes by `name` is the user who goes by `name`.
    proof fn lemma_named_row(&self, i: int, name: Seq<char>)
        requires
            self.wf(),
            0 <= i < self.rows@.len(),
            self.rows@[i].username@ == name,
        ensures
            named(self@, name),
            id_named(self@, name) == self.rows@[i].id,
            self@.contains_key(self.rows@[i].id),
            self@[self.rows@[i].id] == self.rows@[i]@,
    {
        lemma_row_recorded(records(self.rows@), user_key(), i);
        let id = self.rows@[i].id;
        assert(self@.contains_key(id) && self@[id].username == name);
        let chosen = id_named(self@, name);
        assert(self@.contains_key(chosen) && self@.contains_key(id));
    }

    /// Where no row but the one at `skip` goes by `name`, no user but that
    /// one does.
    proof fn lemma_unnamed(&self, name: Seq<char>, skip: Option<usize>)
        requires
            self.wf(),
            forall|k: int|
                0 <= k < self.rows@.len() && !passed_over(skip, k)
                    ==> #[trigger] self.rows@[k].username@ != name,
        ensures
            skip is None ==> !named(self@, name),
            skip matches Some(i) ==> (i < self.rows@.len() ==> !named_by_other(
                self@,
                name,
                self.rows@[i as int].id,
            )),
    {
        if skip is None && named(self@, name) {
            let id = id_named(self@, name);
            lemma_key_has_row(records(self.rows@), user_key(), id);
            let k = row_of(records(self.rows@), user_key(), id);
            assert(self.rows@[k].username@ == name);
        }
        if let Some(i) = skip {
            if i < self.rows@.len() && named_by_other(self@, name, self.rows@[i as int].id) {
                let other = choose|other: u64| #[trigger]
                    self@.contains_key(other) && other != self.rows@[i as int].id
                        && self@[other].username == name;
                lemma_key_has_row(records(self.rows@), user_key(), other);
                let k = row_of(records(self.rows@), user_key(), other);
                assert(self.rows@[k].username@ == name);
                assert(k != i);
            }
        }
    }

    /// The user `id`, or `NotFound`.
    pub fn find_by_id(&self, id: u64) -> (found: Result<User, AuthError>)
        requires
            self.wf(),
        ensures
            found matches Ok(user) ==> self@.contains_key(id) && user@ == self@[id],
            found matches Err(e) ==> e == AuthError::NotFound && !self@.contains_key(id),
    {
        match self.position(id) {
            Some(i) => Ok(self.rows[i].clone()),
            None => Err(AuthError::NotFound),
        }
    }

    /// Whether `candidate` is the digest of the user's password.
    pub fn verify_password(&self, user: &User, candidate: &[u8]) -> (matches: bool)
        ensures
            matches == (user@.password_digest == candidate@),
    {
        digests_match(user.password_digest.as_slice(), candidate)
    }

    /// Adds `user` as it is given. A name or an identifier that is taken is a
    /// `Conflict`, and the store stays as it was.
    pub fn insert(&mut self, user: User) -> (inserted: Result<(), AuthError>)
        requires
            old(self).wf(),
        ensures
            final(self).wf(),
            inserted == (if insertable(old(self)@, user@) {
                Ok::<(), AuthError>(())
            } else {
                Err::<(), AuthError>(AuthError::Conflict)
            }),
            insertable(old(self)@, user@) ==> final(self)@ == old(self)@.insert(user.id, user@)
                && final(self).rows() == old(self).rows().push(user),
            !insertable(old(self)@, user@) ==> final(self)@ == old(self)@ && final(self).rows()
                == old(self).rows(),
    {
        if self.position(user.id).is_some() {
            return Err(AuthError::Conflict);
        }
        match self.position_named(user.username.as_str(), None) {
            Some(i) => {
                proof {
                    self.lemma_named_row(i as int, user.username@);
                }
                return Err(AuthError::Conflict);
            },
            None => {
                proof {
                    self.lemma_unnamed(user.username@, None);
                }
            },
        }
        proof {
            let before = records(self.rows@);
            lemma_push_row(before, user_key(), user@);
            assert(records(self.rows@.push(user)) =~= before.push(user@));
            lemma_insert_keeps_directory(self@, user@);
        }
        self.rows.push(user);
        Ok(())
    }

    /// The store that holds `rows`, loaded one after the other, or nothing if
    /// one of them collides with a row before it.
    pub fn restore(rows: Vec<User>) -> (store: Option<CredentialStore>)
        ensures
            store is Some <==> users_loadable(rows@),
            store matches Some(loaded) ==> loaded.wf() && records(loaded.rows()) == records(rows@),
    {
        let mut store = CredentialStore::new();
        let mut i: usize = 0;
        while i < rows.len()
            invariant
                i <= rows@.len(),
                store.wf(),
                records(store.rows()) == records(rows@.subrange(0, i as int)),
                users_loadable(rows@.subrange(0, i as int)),
            decreases rows@.len() - i,
        {
            let ghost next = rows@.subrange(0, i + 1);
            assert(next.drop_last() =~= rows@.subrange(0, i as int));
            let user = rows[i].clone();
            proof {
                lemma_same_records(store.rows(), rows@.subrange(0, i as int));
                assert(insertable(store@, user@) == insertable(
                    directory_of(next.drop_last()),
                    next.last()@,
                ));
                let prefix = rows@.subrange(0, i as int);
                assert(records(next) =~= records(prefix).push(rows@[i as int]@));
            }
            if store.insert(user).is_err() {
                proof {
                    if users_loadable(rows@) {
                        lemma_users_loadable_prefix(rows@, i as int);
                    }
                }
                return None;
            }
            i = i + 1;
        }
        assert(rows@.subrange(0, i as int) =~= rows@);
        Some(store)
    }

    /// Registers a user under the identifier `id`. A name or an identifier
    /// that is taken is a `Conflict`, and the store stays as it was.
    pub fn create_user(
        &mut self,
        id: u64,
        username: &str,
        password_digest: &[u8],
        elevated: bool,
        now: u64,
    ) -> (created: Result<User, AuthError>)
        requires
            old(self).wf(),
        ensures
            final(self).wf(),
            created is Ok <==> !named(old(self)@, username@) && !old(self)@.contains_key(id),
            created matches Ok(user) ==> user@ == (UserRecord {
                id,
                username: username@,
                password_digest: password_digest@,
                elevated,
                created_at: now,
                updated_at: now,
            }) && final(self)@ == old(self)@.insert(id, user@),
            created matches Err(e) ==> e == AuthError::Conflict && final(self)@ == old(self)@,
    {
        let user = User {
            id,
            username: username.to_owned(),
            password_digest: slice_to_vec(password_digest),
            elevated,
            created_at: now,
            updated_at: now,
        };
        let copy = user.clone();
        match self.insert(user) {
            Ok(_) => Ok(copy),
            Err(error) => Err(error),
        }
    }

    /// Changes the name, the digest, or both, of the user `id`, and records
    /// `now` as the time of the change. Without such a user the answer is
    /// `NotFound`; a name that another user goes by is a `Conflict`; in both
    /// cases the store stays as it was.
    pub fn update_user(
        &mut self,
        id: u64,
        username: Option<&str>,
        password_digest: Option<&[u8]>,
        now: u64,
    ) -> (updated: Result<User, AuthError>)
        requires
            old(self).wf(),
        ensures
            final(self).wf(),
            updated == Err::<User, AuthError>(AuthError::NotFound) <==> !old(self)@.contains_key(
                id,
            ),
            updated == Err::<User, AuthError>(AuthError::Conflict) <==> old(self)@.contains_key(id)
                && username is Some && named_by_other(old(self)@, username->0@, id),
            updated matches Ok(user) ==> old(self)@.contains_key(id) && user@ == (UserRecord {
                username: if username is Some {
                    username->0@
                } else {
                    old(self)@[id].username
                },
                password_digest: if password_digest is Some {
                    password_digest->0@
                } else {
                    old(self)@[id].password_digest
                },
                updated_at: now,
                ..old(self)@[id]
            }) && final(self)@ == old(self)@.insert(id, user@),
            updated matches Err(e) ==> final(self)@ == old(self)@ && (e == AuthError::NotFound || e
                == AuthError::Conflict),
    {
        let i = match self.position(id) {
            Some(i) => i,
            None => {
                return Err(AuthError::NotFound);
            },
        };
        let new_name = match username {
            Some(name) => {
                match self.position_named(name, Some(i)) {
                    Some(k) => {
                        proof {
                            self.lemma_named_row(k as int, name@);
                            lemma_row_recorded(records(self.rows@), user_key(), i as int);
                            assert(self.rows@[k as int].id != id) by {
                                if k < i {
                                    assert(user_key()(records(self.rows@)[k as int]) != user_key()(
                                        records(self.rows@)[i as int],
                                    ));
                                } else {
                                    assert(user_key()(records(self.rows@)[i as int]) != user_key()(
                                        records(self.rows@)[k as int],
                                    ));
                                }
                            }
                        }
                        return Err(AuthError::Conflict);
                    },
                    None => {
                        proof {
                            self.lemma_unnamed(name@, Some(i));
                        }
                    },
                }
                name.to_owned()
            },
            None => self.rows[i].username.clone(),
        };
        let new_digest = match password_digest {
            Some(digest) => slice_to_vec(digest),
            None => slice_to_vec(self.rows[i].password_digest.as_slice()),
        };
        let user = User {
            id,
            username: new_name,
            password_digest: new_digest,
            elevated: self.rows[i].elevated,
            created_at: self.rows[i].created_at,
            updated_at: now,
        };
        let copy = user.clone();
        proof {
            let before = records(self.rows@);
            lemma_update_row(before, user_key(), i as int, user@);
            assert(records(self.rows@.update(i as int, user)) =~= before.update(i as int, user@));
            lemma_replace_keeps_directory(self@, user@);
        }
        self.rows.set(i, user);
        Ok(copy)
    }

    /// Removes the user `id`, or answers `NotFound`.
    pub fn delete_user(&mut self, id: u64) -> (deleted: Result<(), AuthError>)
        requires
            old(self).wf(),
        ensures
            final(self).wf(),
            deleted == (if old(self)@.contains_key(id) {
                Ok::<(), AuthError>(())
            } else {
                Err::<(), AuthError>(AuthError::NotFound)
            }),
            final(self)@ == old(self)@.remove(id),
    {
        match self.position(id) {
            None => Err(AuthError::NotFound),
            Some(i) => {
                proof {
                    let before = records(self.rows@);
                    lemma_remove_row(before, user_key(), i as int);
                    assert(records(self.rows@.remove(i as int)) =~= before.remove(i as int));
                    lemma_remove_keeps_directory(self@, id);
                }
                let _ = self.rows.remove(i);
                Ok(())
            },
        }
    }

    /// The number of users.
    pub fn len(&self) -> (count: usize)
        ensures
            count == self.rows().len(),
    {
        self.rows.len()
    }

    /// The `index`-th user in the order of the rows.
    pub fn row(&self, index: usize) -> (user: Option<User>)
        requires
            self.wf(),
        ensures
            user is Some <==> index < self.rows().len(),
            user matches Some(u) ==> u@ == self.rows()[index as int]@ && self@.contains_key(u.id)
                && self@[u.id] == u@,
    {
        if index < self.rows.len() {
            proof {
                lemma_row_recorded(records(self.rows@), user_key(), index as int);
            }
            Some(self.rows[index].clone())
        } else {
            None
        }
    }
}

} // verus!
