//! Authentication: header parsing, credential checks, login and signup
//! decisions, and the basic-auth publish endpoint.

use base64::Engine;
use zero2prod::authentication::{change_password, get_username, validate_credentials, Credentials};
use zero2prod::login::{login, login_redirect, LoginError, LoginFormData, LoginOutcome};
use zero2prod::newsletters::{
    basic_auth, get_confirmed_subscribers, publish_newsletter, Content, NewsletterRequestBody,
    PublishError,
};
use zero2prod::signup::{signup, SignupFormData, SignupOutcome, SignupSettings};
use zero2prod::store::{Store, SubscriberRecord, SubscriberStatus};

fn settings() -> SignupSettings {
    SignupSettings {
        enabled: true,
        token: String::from("invite-42"),
    }
}

fn signup_form(token: &str, username: &str, password: &str) -> SignupFormData {
    SignupFormData {
        signup_token: String::from(token),
        username: String::from(username),
        password: String::from(password),
    }
}

/// A store with one user, created through the signup flow.
fn store_with_user(username: &str, password: &str) -> Store {
    let mut store = Store::new();
    let outcome = signup(&mut store, signup_form("invite-42", username, password), &settings());
    assert!(matches!(outcome, SignupOutcome::Created { .. }));
    store
}

#[test]
fn basic_auth_decodes_credentials() {
    let header = format!(
        "Basic {}",
        base64::engine::general_purpose::STANDARD.encode("user:pass")
    );
    let c = basic_auth(&header).expect("the header should parse");
    assert_eq!(c.username, "user");
    assert_eq!(c.password, "pass");

    // The password may itself contain colons; only the first one splits.
    let header = format!(
        "Basic {}",
        base64::engine::general_purpose::STANDARD.encode("user:pa:ss")
    );
    let c = basic_auth(&header).expect("the header should parse");
    assert_eq!(c.username, "user");
    assert_eq!(c.password, "pa:ss");
}

#[test]
fn basic_auth_rejects_malformed_headers() {
    // Wrong scheme.
    assert!(basic_auth("Bearer abcdef").is_err());
    // Not base64.
    assert!(basic_auth("Basic !!!not-base64!!!").is_err());
    // No colon in the decoded credentials.
    let header = format!(
        "Basic {}",
        base64::engine::general_purpose::STANDARD.encode("useronly")
    );
    assert!(basic_auth(&header).is_err());
    // Too short to even hold the scheme.
    assert!(basic_auth("Bas").is_err());
}

#[test]
fn validate_credentials_matches_exactly() {
    let store = store_with_user("admin", "hunter2");
    let ok = validate_credentials(
        &Credentials {
            username: String::from("admin"),
            password: String::from("hunter2"),
        },
        &store,
    );
    assert!(ok.is_ok());
    let wrong_password = validate_credentials(
        &Credentials {
            username: String::from("admin"),
            password: String::from("hunter3"),
        },
        &store,
    );
    assert!(wrong_password.is_err());
    let unknown_user = validate_credentials(
        &Credentials {
            username: String::from("nobody"),
            password: String::from("hunter2"),
        },
        &store,
    );
    assert!(unknown_user.is_err());
}

#[test]
fn redirect_to_admin_dashboard_on_login() {
    let store = store_with_user("admin", "hunter2");
    let outcome = login(
        &LoginFormData {
            username: String::from("admin"),
            password: String::from("hunter2"),
        },
        &store,
    );
    match outcome {
        LoginOutcome::Success { location, .. } => assert_eq!(location, "/admin/dashboard"),
        other => panic!("expected a successful login, got {:?}", other),
    }
}

#[test]
fn an_error_flash_message_is_set_on_failure() {
    let store = store_with_user("admin", "hunter2");
    let outcome = login(
        &LoginFormData {
            username: String::from("random-username"),
            password: String::from("random-password"),
        },
        &store,
    );
    match outcome {
        LoginOutcome::Failure { error, location } => {
            assert_eq!(location, "/login");
            let (response, flash) = login_redirect(&error);
            assert_eq!(response.status, 303);
            assert_eq!(
                response.headers,
                vec![(String::from("Location"), String::from("/login"))]
            );
            assert_eq!(flash, "Invalid username or password");
        }
        other => panic!("expected a failed login, got {:?}", other),
    }
}

#[test]
fn signup_fails_with_invalid_token() {
    let mut store = Store::new();
    let outcome = signup(&mut store, signup_form("wrong-token", "test", "pw"), &settings());
    assert!(matches!(outcome, SignupOutcome::InvalidToken));
    assert_eq!(outcome.flash_message(), "Invalid signup token");
    assert_eq!(outcome.location(), "/signup");
    assert_eq!(store.users.len(), 0);
}

#[test]
fn signup_succeeds_with_valid_token() {
    let mut store = Store::new();
    let outcome = signup(&mut store, signup_form("invite-42", "test", "pw"), &settings());
    assert!(matches!(outcome, SignupOutcome::Created { .. }));
    assert_eq!(outcome.flash_message(), "Successful signup!");
    assert_eq!(outcome.location(), "/login");
    assert_eq!(store.users.len(), 1);
    assert_eq!(store.users[0].username, "test");
}

#[test]
fn signup_is_refused_while_disabled() {
    let mut store = Store::new();
    let closed = SignupSettings {
        enabled: false,
        token: String::from("invite-42"),
    };
    let outcome = signup(&mut store, signup_form("invite-42", "test", "pw"), &closed);
    assert!(matches!(outcome, SignupOutcome::Disabled));
    assert_eq!(outcome.flash_message(), "Signups are disabled");
    assert_eq!(store.users.len(), 0);
}

#[test]
fn duplicate_username_fails_the_signup() {
    let mut store = store_with_user("taken", "pw1");
    let outcome = signup(&mut store, signup_form("invite-42", "taken", "pw2"), &settings());
    assert!(matches!(outcome, SignupOutcome::Failed));
    assert_eq!(store.users.len(), 1);
    assert_eq!(store.users[0].password, "pw1");
}

#[test]
fn changing_password_works() {
    let mut store = store_with_user("admin", "old-password");
    let user_id = store.users[0].user_id;
    assert!(change_password(&mut store, user_id, String::from("new-password")));
    assert!(validate_credentials(
        &Credentials {
            username: String::from("admin"),
            password: String::from("old-password"),
        },
        &store,
    )
    .is_err());
    assert!(validate_credentials(
        &Credentials {
            username: String::from("admin"),
            password: String::from("new-password"),
        },
        &store,
    )
    .is_ok());
    // An unknown id changes nothing.
    assert!(!change_password(&mut store, user_id.wrapping_add(1), String::from("x")));
}

#[test]
fn get_username_returns_the_stored_name() {
    let store = store_with_user("admin", "pw");
    let id = store.users[0].user_id;
    assert_eq!(get_username(id, &store).as_deref(), Some("admin"));
    assert!(get_username(id.wrapping_add(1), &store).is_none());
}

#[test]
fn publish_error_response_statuses() {
    let auth = PublishError::AuthError(String::from("bad credentials"));
    let r = auth.error_response();
    assert_eq!(r.status, 401);
    assert_eq!(
        r.headers,
        vec![(
            String::from("WWW-Authenticate"),
            String::from("Basic realm=\"publish\"")
        )]
    );
    assert!(r.body.is_empty());
    let unexpected = PublishError::UnexpectedError(String::from("boom"));
    let r = unexpected.error_response();
    assert_eq!(r.status, 500);
    assert!(r.headers.is_empty());
}

#[test]
fn basic_auth_publish_prepares_one_email_per_valid_confirmed_subscriber() {
    let mut store = store_with_user("publisher", "secret");
    store.subscribers.push(SubscriberRecord {
        id: 1,
        email: String::from("good@example.com"),
        name: String::from("Good"),
        subscribed_at: 0,
        status: SubscriberStatus::Confirmed,
    });
    store.subscribers.push(SubscriberRecord {
        id: 2,
        email: String::from("corrupt row"),
        name: String::from("Corrupt"),
        subscribed_at: 0,
        status: SubscriberStatus::Confirmed,
    });
    store.subscribers.push(SubscriberRecord {
        id: 3,
        email: String::from("pending@example.com"),
        name: String::from("Pending"),
        subscribed_at: 0,
        status: SubscriberStatus::PendingConfirmation,
    });

    let rows = get_confirmed_subscribers(&store);
    assert_eq!(rows.len(), 2);
    assert!(rows[0].is_ok());
    assert!(rows[1].is_err());

    let body = NewsletterRequestBody {
        title: String::from("Newsletter title"),
        content: Content {
            text: String::from("Newsletter body as plain text"),
            html: String::from("<p>Newsletter body as HTML</p>"),
        },
    };
    let header = format!(
        "Basic {}",
        base64::engine::general_purpose::STANDARD.encode("publisher:secret")
    );
    let emails = publish_newsletter(&store, &header, &body).expect("the caller is authorized");
    assert_eq!(emails.len(), 1);
    assert_eq!(emails[0].recipient, "good@example.com");
    assert_eq!(emails[0].subject, "Newsletter title");
    assert_eq!(emails[0].html_body, "<p>Newsletter body as HTML</p>");
    assert_eq!(emails[0].text_body, "Newsletter body as plain text");

    let bad_header = format!(
        "Basic {}",
        base64::engine::general_purpose::STANDARD.encode("publisher:wrong")
    );
    let refused = publish_newsletter(&store, &bad_header, &body);
    assert!(matches!(refused, Err(PublishError::AuthError(_))));
}
