//! The signup decision: gate on the deployment's signup settings, check
//! the invite token, and create the user.

use vstd::prelude::*;
use vstd::string::StringExecFns;
use crate::store::{has_username, Store, StoreModel, UserRecord};
use crate::subscriptions::generate_id;

verus! {

/// Deployment settings of the signup flow: whether signups are open, and
/// the invite token they require.
#[derive(Debug)]
pub struct SignupSettings {
    pub enabled: bool,
    pub token: String,
}

/// The signup form as submitted.
#[derive(Debug)]
pub struct SignupFormData {
    pub signup_token: String,
    pub username: String,
    pub password: String,
}

/// What the signup handler decided.
#[derive(Debug)]
pub enum SignupOutcome {
    /// Signups are disabled on this deployment.
    Disabled,
    /// The invite token does not match.
    InvalidToken,
    /// The user exists now and can log in.
    Created { user_id: u128 },
    /// The user could not be created (the username or the fresh id is
    /// already taken).
    Failed,
}

impl SignupOutcome {
    /// Where the browser goes after this outcome.
    pub fn location(&self) -> (l: String)
        ensures
            self matches SignupOutcome::Disabled ==> l@ == "/login"@,
            self matches SignupOutcome::InvalidToken ==> l@ == "/signup"@,
            self matches SignupOutcome::Created { .. } ==> l@ == "/login"@,
            self matches SignupOutcome::Failed ==> l@ == "/signup"@,
    {
        match self {
            SignupOutcome::Disabled => String::from_str("/login"),
            SignupOutcome::InvalidToken => String::from_str("/signup"),
            SignupOutcome::Created { .. } => String::from_str("/login"),
            SignupOutcome::Failed => String::from_str("/signup"),
        }
    }

    /// The message the next page flashes for this outcome.
    pub fn flash_message(&self) -> (m: String)
        ensures
            self matches SignupOutcome::Disabled ==> m@ == "Signups are disabled"@,
            self matches SignupOutcome::InvalidToken ==> m@ == "Invalid signup token"@,
            self matches SignupOutcome::Created { .. } ==> m@ == "Successful signup!"@,
            self matches SignupOutcome::Failed ==> m@ == "Signup failed."@,
    {
        match self {
            SignupOutcome::Disabled => String::from_str("Signups are disabled"),
            SignupOutcome::InvalidToken => String::from_str("Invalid signup token"),
            SignupOutcome::Created { .. } => String::from_str("Successful signup!"),
            SignupOutcome::Failed => String::from_str("Signup failed."),
        }
    }
}

/// Creates a user under the given id. Fails — leaving the store
/// untouched — exactly when the username or the id is already taken.
#[verifier::loop_isolation(false)]
pub fn insert_user_with_id(
    store: &mut Store,
    username: String,
    password: String,
    id: u128,
) -> (r: Result<(), ()>)
    requires
        old(store).wf(),
    ensures
        final(store).wf(),
        ({
            let taken = has_username(old(store)@.users, username@) || crate::store::has_user_id(
                old(store)@.users,
                id,
            );
            &&& taken ==> (r is Err && final(store)@ == old(store)@)
            &&& !taken ==> (r is Ok && final(store)@ == (StoreModel {
                users: old(store)@.users.push(UserRecord { user_id: id, username, password }),
                ..old(store)@
            }))
        }),
{
    let n = store.users.len();
    let mut i: usize = 0;
    while i < n
        invariant
            0 <= i <= n,
            *store == *old(store),
            forall|j: int|
                0 <= j < i ==> (#[trigger] store@.users[j]).username@ != username@
                    && store@.users[j].user_id != id,
        decreases n - i,
    {
        let u = &store.users[i];
        if u.user_id == id || u.username == username {
            return Err(());
        }
        i = i + 1;
    }
    let record = UserRecord { user_id: id, username: username.clone(), password: password.clone() };
    store.users.push(record);
    proof {
        assert(final(store)@ =~= (StoreModel {
            users: old(store)@.users.push(UserRecord { user_id: id, username, password }),
            ..old(store)@
        }));
    }
    Ok(())
}

/// Creates a user under a fresh random id. Fails — leaving the store
/// untouched — when the username is taken, or in the unlikely event that
/// the random id collides.
pub fn insert_user(store: &mut Store, username: String, password: String) -> (r: Result<u128, ()>)
    requires
        old(store).wf(),
    ensures
        final(store).wf(),
        has_username(old(store)@.users, username@) ==> r is Err,
        r is Err ==> final(store)@ == old(store)@,
        r matches Ok(id) ==> (!has_username(old(store)@.users, username@) && final(store)@ == (
        StoreModel {
            users: old(store)@.users.push(UserRecord { user_id: id, username, password }),
            ..old(store)@
        })),
{
    let id = generate_id();
    match insert_user_with_id(store, username, password, id) {
        Ok(_) => Ok(id),
        Err(_) => Err(()),
    }
}

/// Serves one signup form: refused while signups are disabled, refused
/// on a wrong invite token, and otherwise creates the user — unless the
/// username is already taken, which fails the signup and leaves the
/// store unchanged.
pub fn signup(store: &mut Store, form: SignupFormData, settings: &SignupSettings) -> (r:
    SignupOutcome)
    requires
        old(store).wf(),
    ensures
        final(store).wf(),
        !settings.enabled ==> (r matches SignupOutcome::Disabled && final(store)@ == old(store)@),
        settings.enabled && settings.token@ != form.signup_token@ ==> (r matches
        SignupOutcome::InvalidToken && final(store)@ == old(store)@),
        settings.enabled && settings.token@ == form.signup_token@ ==> match r {
            SignupOutcome::Created { user_id } => !has_username(
                old(store)@.users,
                form.username@,
            ) && final(store)@ == (StoreModel {
                users: old(store)@.users.push(
                    UserRecord { user_id, username: form.username, password: form.password },
                ),
                ..old(store)@
            }),
            SignupOutcome::Failed => final(store)@ == old(store)@,
            _ => false,
        },
        settings.enabled && settings.token@ == form.signup_token@ && has_username(
            old(store)@.users,
            form.username@,
        ) ==> r matches SignupOutcome::Failed,
{
    if !settings.enabled {
        return SignupOutcome::Disabled;
    }
    if !(settings.token == form.signup_token) {
        return SignupOutcome::InvalidToken;
    }
    match insert_user(store, form.username, form.password) {
        Ok(user_id) => SignupOutcome::Created { user_id },
        Err(_) => SignupOutcome::Failed,
    }
}

} // verus!
