//! The login decision: check the submitted credentials and choose where
//! the browser goes next.

use vstd::prelude::*;
use vstd::string::StringExecFns;
use crate::authentication::{validate_credentials, Credentials};
use crate::idempotency::{ResponseModel, StoredResponse};
use crate::store::{lookup_credentials, Store};

verus! {

/// The login form as submitted.
#[derive(Debug)]
pub struct LoginFormData {
    pub username: String,
    pub password: String,
}

/// Why a login failed.
#[derive(Debug)]
pub enum LoginError {
    /// The submitted credentials match no user.
    AuthError(String),
    /// Something else went wrong serving the request.
    UnexpectedError(String),
}

impl LoginError {
    /// The message the login page flashes for this error.
    pub fn message(&self) -> (m: String)
        ensures
            self matches LoginError::AuthError(_) ==> m@ == "Invalid username or password"@,
            self matches LoginError::UnexpectedError(d) ==> m@ == d@,
    {
        match self {
            LoginError::AuthError(_) => String::from_str("Invalid username or password"),
            LoginError::UnexpectedError(d) => d.clone(),
        }
    }
}

/// What the login handler decided.
#[derive(Debug)]
pub enum LoginOutcome {
    /// The credentials matched: this user owns the session now and is
    /// sent to the admin dashboard.
    Success { user_id: u128, location: String },
    /// They did not: back to the login page, with the error to flash.
    Failure { error: LoginError, location: String },
}

/// The redirect a failed login sends: back to the login page, flashing
/// the error's message.
pub fn login_redirect(e: &LoginError) -> (r: (StoredResponse, String))
    ensures
        r.0@ == (ResponseModel {
            status: 303,
            headers: seq![("Location"@, "/login"@)],
            body: Seq::empty(),
        }),
        e matches LoginError::AuthError(_) ==> r.1@ == "Invalid username or password"@,
        e matches LoginError::UnexpectedError(d) ==> r.1@ == d@,
{
    let flash = e.message();
    let mut headers: Vec<(String, String)> = Vec::new();
    headers.push((String::from_str("Location"), String::from_str("/login")));
    let response = StoredResponse { status: 303, headers, body: Vec::new() };
    proof {
        assert(response@.headers =~= seq![("Location"@, "/login"@)]);
    }
    (response, flash)
}

/// Serves one login form: matching credentials send their owner to the
/// admin dashboard; anything else goes back to the login page with an
/// authentication error.
pub fn login(form: &LoginFormData, store: &Store) -> (r: LoginOutcome)
    ensures
        match lookup_credentials(store@.users, form.username@, form.password@) {
            Some(id) => (r matches LoginOutcome::Success { user_id, location } && user_id == id
                && location@ == "/admin/dashboard"@),
            None => (r matches LoginOutcome::Failure { error, location } && (error matches
            LoginError::AuthError(_)) && location@ == "/login"@),
        },
{
    let credentials = Credentials {
        username: form.username.clone(),
        password: form.password.clone(),
    };
    match validate_credentials(&credentials, store) {
        Ok(user_id) => LoginOutcome::Success {
            user_id,
            location: String::from_str("/admin/dashboard"),
        },
        Err(_) => LoginOutcome::Failure {
            error: LoginError::AuthError(String::from_str("Invalid username or password.")),
            location: String::from_str("/login"),
        },
    }
}

} // verus!
