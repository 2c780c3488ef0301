//! End-to-end behavior of the publish pipeline: fan-out to confirmed
//! subscribers, idempotent replay, and the draining worker.

use zero2prod::domain::FormData;
use zero2prod::idempotency::{BeginOutcome, IdempotencyKey, StoredResponse};
use zero2prod::publish::{publish_newsletter, NewsletterRequestBody, PublishOutcome};
use zero2prod::store::Store;
use zero2prod::subscriptions::subscribe;
use zero2prod::subscriptions_confirm::{confirm, ConfirmOutcome, Parameters};
use zero2prod::worker::{claim_entry, settle_delivery, ClaimOutcome, SendOutcome};
use zero2prod::ApplicationBaseUrl;

fn base_url() -> ApplicationBaseUrl {
    ApplicationBaseUrl(String::from("https://newsletter.example"))
}

/// Subscribes and, if asked, confirms one subscriber.
fn add_subscriber(store: &mut Store, email: &str, name: &str, confirmed: bool) {
    let acc = subscribe(
        store,
        FormData {
            email: String::from(email),
            name: String::from(name),
        },
        &base_url(),
    )
    .expect("subscription should be accepted");
    if confirmed {
        let outcome = confirm(
            store,
            &Parameters {
                subscription_token: acc.subscription_token,
            },
        );
        assert_eq!(outcome, ConfirmOutcome::Confirmed);
    }
}

fn request(key: &str) -> NewsletterRequestBody {
    NewsletterRequestBody {
        title: String::from("T"),
        html_content: String::from("<p>H</p>"),
        text_content: String::from("P"),
        idempotency_key: String::from(key),
    }
}

/// Drains the queue, settling every claimed task as sent; returns the
/// recipients in delivery order.
fn drain(store: &mut Store) -> Vec<String> {
    let mut sent: Vec<String> = Vec::new();
    loop {
        match claim_entry(store) {
            ClaimOutcome::EmptyQueue => break,
            ClaimOutcome::SkippedInvalid(_) => continue,
            ClaimOutcome::Claimed(task) => {
                sent.push(task.recipient.clone());
                assert!(settle_delivery(store, &task, SendOutcome::Sent));
            }
        }
    }
    sent
}

#[test]
fn publish_and_drain_scenario() {
    let mut store = Store::new();
    add_subscriber(&mut store, "one@example.com", "One", true);
    add_subscriber(&mut store, "two@example.com", "Two", true);

    let outcome = publish_newsletter(&mut store, 7, &request("abc-123"), 1_000);
    let response = match outcome {
        PublishOutcome::Published(r) => r,
        other => panic!("expected a published outcome, got {:?}", other),
    };
    assert_eq!(response.status, 303);
    assert_eq!(response.body, b"accepted".to_vec());
    assert_eq!(store.issues.len(), 1);
    assert_eq!(store.issues[0].title, "T");
    assert_eq!(store.issues[0].html_content, "<p>H</p>");
    assert_eq!(store.issues[0].text_content, "P");
    assert_eq!(store.queue.len(), 2);

    let sent = drain(&mut store);
    assert_eq!(sent, vec!["one@example.com", "two@example.com"]);
    assert_eq!(store.queue.len(), 0);

    // Re-submitting the identical request replays the identical response
    // and enqueues nothing.
    let replay = publish_newsletter(&mut store, 7, &request("abc-123"), 9_999);
    let replayed = match replay {
        PublishOutcome::Replay(r) => r,
        other => panic!("expected a replay, got {:?}", other),
    };
    assert_eq!(replayed.status, response.status);
    assert_eq!(replayed.body, response.body);
    assert_eq!(replayed.headers.len(), response.headers.len());
    assert_eq!(replayed.headers[0], response.headers[0]);
    assert_eq!(store.issues.len(), 1);
    assert_eq!(drain(&mut store).len(), 0);
}

#[test]
fn newsletters_are_delivered_to_confirmed_subscribers() {
    let mut store = Store::new();
    add_subscriber(&mut store, "a@example.com", "A", true);
    add_subscriber(&mut store, "b@example.com", "B", true);
    add_subscriber(&mut store, "c@example.com", "C", true);

    let outcome = publish_newsletter(&mut store, 1, &request("issue-1"), 5);
    assert!(matches!(outcome, PublishOutcome::Published(_)));
    let sent = drain(&mut store);
    assert_eq!(sent.len(), 3);
    assert!(sent.contains(&String::from("a@example.com")));
    assert!(sent.contains(&String::from("b@example.com")));
    assert!(sent.contains(&String::from("c@example.com")));
}

#[test]
fn newsletter_are_not_delivered_to_unconfirmed_subscribers() {
    let mut store = Store::new();
    add_subscriber(&mut store, "silent@example.com", "Silent", false);
    add_subscriber(&mut store, "loud@example.com", "Loud", true);

    let outcome = publish_newsletter(&mut store, 1, &request("issue-2"), 5);
    assert!(matches!(outcome, PublishOutcome::Published(_)));
    assert_eq!(store.queue.len(), 1);
    let sent = drain(&mut store);
    assert_eq!(sent, vec!["loud@example.com"]);
}

#[test]
fn unconfirmed_subscriber_confirming_late_gets_nothing() {
    let mut store = Store::new();
    let acc = subscribe(
        &mut store,
        FormData {
            email: String::from("late@example.com"),
            name: String::from("Late"),
        },
        &base_url(),
    )
    .expect("subscription should be accepted");

    let outcome = publish_newsletter(&mut store, 1, &request("issue-3"), 5);
    assert!(matches!(outcome, PublishOutcome::Published(_)));
    assert_eq!(store.queue.len(), 0);

    // Confirming after the publish does not resurrect the missed issue.
    let confirmed = confirm(
        &mut store,
        &Parameters {
            subscription_token: acc.subscription_token,
        },
    );
    assert_eq!(confirmed, ConfirmOutcome::Confirmed);
    assert_eq!(store.queue.len(), 0);
    assert_eq!(drain(&mut store).len(), 0);
}

#[test]
fn newsletter_creation_is_idempotent() {
    let mut store = Store::new();
    add_subscriber(&mut store, "only@example.com", "Only", true);

    let first = publish_newsletter(&mut store, 3, &request("same-key"), 10);
    assert!(matches!(first, PublishOutcome::Published(_)));
    let second = publish_newsletter(&mut store, 3, &request("same-key"), 20);
    assert!(matches!(second, PublishOutcome::Replay(_)));
    assert_eq!(store.issues.len(), 1);
    assert_eq!(store.queue.len(), 1);
    assert_eq!(drain(&mut store).len(), 1);
}

#[test]
fn distinct_keys_create_distinct_issues() {
    let mut store = Store::new();
    add_subscriber(&mut store, "reader@example.com", "Reader", true);

    assert!(matches!(
        publish_newsletter(&mut store, 3, &request("key-one"), 10),
        PublishOutcome::Published(_)
    ));
    assert!(matches!(
        publish_newsletter(&mut store, 3, &request("key-two"), 11),
        PublishOutcome::Published(_)
    ));
    assert_eq!(store.issues.len(), 2);
    assert_eq!(store.queue.len(), 2);
}

#[test]
fn same_key_under_distinct_actors_creates_two_issues() {
    let mut store = Store::new();
    add_subscriber(&mut store, "reader@example.com", "Reader", true);

    assert!(matches!(
        publish_newsletter(&mut store, 1, &request("shared"), 10),
        PublishOutcome::Published(_)
    ));
    assert!(matches!(
        publish_newsletter(&mut store, 2, &request("shared"), 11),
        PublishOutcome::Published(_)
    ));
    assert_eq!(store.issues.len(), 2);
}

#[test]
fn newsletter_returns_400_for_invalid_data() {
    let mut store = Store::new();
    add_subscriber(&mut store, "reader@example.com", "Reader", true);

    let outcome = publish_newsletter(&mut store, 1, &request(""), 10);
    assert!(matches!(outcome, PublishOutcome::Invalid));
    assert_eq!(store.issues.len(), 0);
    assert_eq!(store.queue.len(), 0);

    let overlong = "k".repeat(51);
    let outcome = publish_newsletter(&mut store, 1, &request(&overlong), 10);
    assert!(matches!(outcome, PublishOutcome::Invalid));
    assert_eq!(store.issues.len(), 0);
}

#[test]
fn concurrent_form_submission_is_handled_gracefully() {
    let mut store = Store::new();
    add_subscriber(&mut store, "reader@example.com", "Reader", true);
    let key = IdempotencyKey::try_from(String::from("raced-key")).unwrap();

    // Request A wins the placeholder insert and starts executing.
    assert!(matches!(store.begin_or_replay(5, &key, 100), BeginOutcome::Started));

    // Request B races in with the identical pair while A is mid-flight:
    // it must not execute, and it must be told to wait.
    let b = publish_newsletter(&mut store, 5, &request("raced-key"), 101);
    assert!(matches!(b, PublishOutcome::InFlight));
    assert_eq!(store.issues.len(), 0);
    assert_eq!(store.queue.len(), 0);

    // A finishes and records its response.
    let response = StoredResponse {
        status: 200,
        headers: Vec::new(),
        body: b"accepted".to_vec(),
    };
    assert!(store.complete(5, &key, response));

    // B's retry now observes exactly the bytes A produced.
    let retry = publish_newsletter(&mut store, 5, &request("raced-key"), 102);
    match retry {
        PublishOutcome::Replay(r) => {
            assert_eq!(r.status, 200);
            assert_eq!(r.body, b"accepted".to_vec());
            assert!(r.headers.is_empty());
        }
        other => panic!("expected a replay, got {:?}", other),
    }
    assert_eq!(store.issues.len(), 0);
}
