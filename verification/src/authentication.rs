//! Credential checking against the user table.

use vstd::prelude::*;
use crate::store::{
    lemma_lookup_credentials, lemma_lookup_username, lookup_credentials, lookup_username, Store,
    StoreModel, UserRecord,
};

verus! {

/// A username/password pair as a client submitted it.
#[derive(Debug)]
pub struct Credentials {
    pub username: String,
    pub password: String,
}

/// Why credential validation failed.
#[derive(Debug)]
pub enum AuthError {
    /// No user row matches the submitted pair.
    InvalidCredentials,
    /// The user store could not be consulted.
    UnexpectedError,
}

/// A first credential match at index `i` pins down `lookup_credentials`.
proof fn lemma_credentials_found_at(
    users: Seq<UserRecord>,
    username: Seq<char>,
    password: Seq<char>,
    i: int,
)
    requires
        0 <= i < users.len(),
        users[i].username@ == username && users[i].password@ == password,
        forall|j: int|
            0 <= j < i ==> !((#[trigger] users[j]).username@ == username && users[j].password@
                == password),
    ensures
        lookup_credentials(users, username, password) == Some(users[i].user_id),
    decreases i,
{
    if i > 0 {
        lemma_credentials_found_at(users.drop_first(), username, password, i - 1);
        assert(forall|j: int|
            1 <= j < users.len() ==> users.drop_first()[j - 1] == #[trigger] users[j]);
    }
}

/// A first id match at index `i` pins down `lookup_username`.
proof fn lemma_username_found_at(users: Seq<UserRecord>, id: u128, i: int)
    requires
        0 <= i < users.len(),
        users[i].user_id == id,
        forall|j: int| 0 <= j < i ==> (#[trigger] users[j]).user_id != id,
    ensures
        lookup_username(users, id) == Some(users[i].username@),
    decreases i,
{
    if i > 0 {
        lemma_username_found_at(users.drop_first(), id, i - 1);
        assert(forall|j: int|
            1 <= j < users.len() ==> users.drop_first()[j - 1] == #[trigger] users[j]);
    }
}

/// Checks the credentials against the user table: returns the matching
/// user's id, and fails exactly when no row matches both fields.
#[verifier::loop_isolation(false)]
pub fn validate_credentials(credentials: &Credentials, store: &Store) -> (r: Result<
    u128,
    AuthError,
>)
    ensures
        match lookup_credentials(store@.users, credentials.username@, credentials.password@) {
            Some(id) => r matches Ok(rid) && rid == id,
            None => r matches Err(e) && e matches AuthError::InvalidCredentials,
        },
{
    let n = store.users.len();
    let mut i: usize = 0;
    while i < n
        invariant
            0 <= i <= n,
            forall|j: int|
                0 <= j < i ==> !((#[trigger] store@.users[j]).username@ == credentials.username@
                    && store@.users[j].password@ == credentials.password@),
        decreases n - i,
    {
        let u = &store.users[i];
        if u.username == credentials.username && u.password == credentials.password {
            proof {
                lemma_credentials_found_at(
                    store@.users,
                    credentials.username@,
                    credentials.password@,
                    i as int,
                );
            }
            return Ok(u.user_id);
        }
        i = i + 1;
    }
    proof {
        lemma_lookup_credentials(store@.users, credentials.username@, credentials.password@);
    }
    Err(AuthError::InvalidCredentials)
}

/// The username of the given user id, if that user exists.
#[verifier::loop_isolation(false)]
pub fn get_username(user_id: u128, store: &Store) -> (r: Option<String>)
    ensures
        match lookup_username(store@.users, user_id) {
            Some(name) => r matches Some(s) && s@ == name,
            None => r is None,
        },
{
    let n = store.users.len();
    let mut i: usize = 0;
    while i < n
        invariant
            0 <= i <= n,
            forall|j: int| 0 <= j < i ==> (#[trigger] store@.users[j]).user_id != user_id,
        decreases n - i,
    {
        let u = &store.users[i];
        if u.user_id == user_id {
            proof {
                lemma_username_found_at(store@.users, user_id, i as int);
            }
            return Some(u.username.clone());
        }
        i = i + 1;
    }
    proof {
        lemma_lookup_username(store@.users, user_id);
    }
    None
}

/// Index of the first user row with the given id, or -1.
pub open spec fn user_index(users: Seq<UserRecord>, id: u128) -> int
    decreases users.len(),
{
    if users.len() == 0 {
        -1
    } else if users[0].user_id == id {
        0int
    } else {
        let r = user_index(users.drop_first(), id);
        if r == -1 {
            -1
        } else {
            r + 1
        }
    }
}

/// The index returned by `user_index` is the first row with the id, and
/// -1 means there is none.
pub proof fn lemma_user_index(users: Seq<UserRecord>, id: u128)
    ensures
        ({
            let i = user_index(users, id);
            &&& i == -1 ==> forall|j: int| 0 <= j < users.len() ==> (#[trigger] users[j]).user_id
                != id
            &&& i != -1 ==> 0 <= i < users.len() && users[i].user_id == id && forall|j: int|
                0 <= j < i ==> (#[trigger] users[j]).user_id != id
        }),
    decreases users.len(),
{
    if users.len() > 0 && users[0].user_id != id {
        lemma_user_index(users.drop_first(), id);
        assert(forall|j: int|
            1 <= j < users.len() ==> users.drop_first()[j - 1] == #[trigger] users[j]);
    }
}

/// State after a password change: the row with the user id, if any,
/// carries the new password; an unknown id changes nothing.
pub open spec fn change_password_next(m: StoreModel, id: u128, password: String) -> StoreModel {
    let i = user_index(m.users, id);
    if i == -1 {
        m
    } else {
        StoreModel { users: m.users.update(i, UserRecord { password, ..m.users[i] }), ..m }
    }
}

/// Replaces the stored password of the given user. Returns whether the
/// user exists; an unknown id changes nothing.
#[verifier::loop_isolation(false)]
pub fn change_password(store: &mut Store, user_id: u128, password: String) -> (r: bool)
    requires
        old(store).wf(),
    ensures
        final(store).wf(),
        final(store)@ == change_password_next(old(store)@, user_id, password),
        r == (user_index(old(store)@.users, user_id) != -1),
{
    proof {
        lemma_user_index(store@.users, user_id);
    }
    let n = store.users.len();
    let mut i: usize = 0;
    while i < n
        invariant
            0 <= i <= n,
            *store == *old(store),
            forall|j: int| 0 <= j < i ==> (#[trigger] store@.users[j]).user_id != user_id,
        decreases n - i,
    {
        let found = store.users[i].user_id == user_id;
        if found {
            let mut rec = store.users.remove(i);
            rec.password = password;
            store.users.insert(i, rec);
            proof {
                assert(store.users@ =~= old(store)@.users.update(
                    i as int,
                    UserRecord { password, ..old(store)@.users[i as int] },
                ));
                assert(final(store)@ =~= change_password_next(old(store)@, user_id, password));
            }
            return true;
        }
        i = i + 1;
    }
    false
}

} // verus!
