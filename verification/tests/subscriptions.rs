//! The subscription path: validation, persistence, tokens, and the
//! confirmation email.

use zero2prod::domain::{
    is_valid_email, is_valid_name, FormData, SubscriberEmail, SubscriberName, SubscriptionRequest,
};
use zero2prod::store::{Store, SubscriberStatus};
use zero2prod::subscriptions::{subscribe, SubscribeError};
use zero2prod::subscriptions_confirm::{
    confirm, get_subscriber_id_from_token, ConfirmOutcome, Parameters,
};
use zero2prod::ApplicationBaseUrl;

fn base_url() -> ApplicationBaseUrl {
    ApplicationBaseUrl(String::from("https://newsletter.example"))
}

fn form(email: &str, name: &str) -> FormData {
    FormData {
        email: String::from(email),
        name: String::from(name),
    }
}

#[test]
fn subscribe_persists_the_new_subscriber() {
    let mut store = Store::new();
    let acc = subscribe(
        &mut store,
        form("ursula_le_guin@gmail.com", "le guin"),
        &base_url(),
    )
    .expect("the subscription should be accepted");

    assert_eq!(store.subscribers.len(), 1);
    let saved = &store.subscribers[0];
    assert_eq!(saved.email, "ursula_le_guin@gmail.com");
    assert_eq!(saved.name, "le guin");
    assert_eq!(saved.status, SubscriberStatus::PendingConfirmation);
    assert_eq!(saved.id, acc.subscriber_id);
    assert_eq!(store.subscription_tokens.len(), 1);
    assert_eq!(
        store.subscription_tokens[0].subscription_token,
        acc.subscription_token
    );
}

#[test]
fn subscribe_returns_bad_request_for_invalid_data() {
    for (email, name) in [
        ("ursula_le_guin@gmail.com", ""),
        ("", "Ursula"),
        ("not-an-email", "Ursula"),
    ] {
        let mut store = Store::new();
        let r = subscribe(&mut store, form(email, name), &base_url());
        match r {
            Err(e) => {
                assert!(matches!(e, SubscribeError::ValidationError(_)));
                assert_eq!(e.status_code(), 400);
            }
            Ok(_) => panic!(
                "the API did not reject the payload email={:?} name={:?}",
                email, name
            ),
        }
        assert_eq!(store.subscribers.len(), 0);
        assert_eq!(store.subscription_tokens.len(), 0);
    }
}

#[test]
fn subscribe_sends_a_confirmation_email() {
    let mut store = Store::new();
    let acc = subscribe(&mut store, form("reader@example.com", "Reader"), &base_url())
        .expect("the subscription should be accepted");

    let email = &acc.confirmation_email;
    assert_eq!(email.recipient, "reader@example.com");
    assert_eq!(email.subject, "Welcome!");
    let link = format!(
        "https://newsletter.example/subscriptions/confirm?subscription_token={}",
        acc.subscription_token
    );
    assert_eq!(
        email.html_body,
        format!(
            "Welcome to our newsletter! <br />Click <a href=\"{}\">here</a> to confirm your subscriptions.",
            link
        )
    );
    assert_eq!(
        email.text_body,
        format!(
            "Welcome to our newsletter!\nVisit {} to confirm your subscription.",
            link
        )
    );
}

#[test]
fn subscription_token_is_25_alphanumeric_characters() {
    let mut store = Store::new();
    let acc = subscribe(&mut store, form("reader@example.com", "Reader"), &base_url())
        .expect("the subscription should be accepted");
    assert_eq!(acc.subscription_token.len(), 25);
    assert!(acc.subscription_token.chars().all(|c| c.is_ascii_alphanumeric()));
}

#[test]
fn duplicate_email_is_rejected() {
    let mut store = Store::new();
    subscribe(&mut store, form("once@example.com", "Once"), &base_url())
        .expect("the first subscription should be accepted");
    let r = subscribe(&mut store, form("once@example.com", "Twice"), &base_url());
    match r {
        Err(e) => {
            assert!(matches!(e, SubscribeError::InsertSubscriberError));
            assert_eq!(e.status_code(), 500);
        }
        Ok(_) => panic!("a duplicate email must be rejected"),
    }
    assert_eq!(store.subscribers.len(), 1);
}

#[test]
fn the_emailed_token_confirms_the_subscription() {
    let mut store = Store::new();
    let acc = subscribe(&mut store, form("reader@example.com", "Reader"), &base_url())
        .expect("the subscription should be accepted");

    let id = get_subscriber_id_from_token(&store, &acc.subscription_token)
        .expect("the stored token should resolve");
    assert_eq!(id, acc.subscriber_id);

    let outcome = confirm(
        &mut store,
        &Parameters {
            subscription_token: acc.subscription_token,
        },
    );
    assert_eq!(outcome, ConfirmOutcome::Confirmed);
    assert_eq!(store.subscribers[0].status, SubscriberStatus::Confirmed);
}

#[test]
fn confirmation_with_unknown_token_is_rejected() {
    let mut store = Store::new();
    subscribe(&mut store, form("reader@example.com", "Reader"), &base_url())
        .expect("the subscription should be accepted");
    let outcome = confirm(
        &mut store,
        &Parameters {
            subscription_token: String::from("who-knows-this-token"),
        },
    );
    assert_eq!(outcome, ConfirmOutcome::UnknownToken);
    assert_eq!(store.subscribers[0].status, SubscriberStatus::PendingConfirmation);
}

#[test]
fn email_validation_is_structural() {
    assert!(is_valid_email("ursula_le_guin@gmail.com"));
    assert!(!is_valid_email(""));
    assert!(!is_valid_email("not-an-email"));
    assert!(!is_valid_email("two@at@signs"));
    assert!(!is_valid_email("@nolocal"));
    assert!(!is_valid_email("nodomain@"));
    assert!(!is_valid_email("spaced out@example.com"));
    let longest_ok = format!("{}@{}", "a".repeat(9), "b".repeat(310));
    assert!(is_valid_email(&longest_ok));
    let too_long = format!("{}@{}", "a".repeat(10), "b".repeat(310));
    assert!(!is_valid_email(&too_long));
}

#[test]
fn name_validation_is_structural() {
    assert!(is_valid_name("le guin"));
    assert!(!is_valid_name(""));
    assert!(!is_valid_name("   "));
    assert!(!is_valid_name("forbidden/slash"));
    assert!(!is_valid_name("angle<bracket"));
    assert!(is_valid_name(&"n".repeat(256)));
    assert!(!is_valid_name(&"n".repeat(257)));
}

#[test]
fn parsed_domain_values_keep_their_input() {
    let email = SubscriberEmail::parse(String::from("kept@example.com")).unwrap();
    assert_eq!(email.as_str(), "kept@example.com");
    let name = SubscriberName::parse(String::from("Kept")).unwrap();
    assert_eq!(name.as_str(), "Kept");
    let req = SubscriptionRequest::try_from(form("kept@example.com", "Kept")).unwrap();
    assert_eq!(req.email.as_str(), "kept@example.com");
    assert_eq!(req.name.as_str(), "Kept");
    let err = SubscriberEmail::parse(String::from("broken")).unwrap_err();
    assert_eq!(err, "broken is not a valid subscriber email.");
}
