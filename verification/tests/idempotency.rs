//! The idempotency store on its own: key validation and the two-phase
//! placeholder/complete protocol.

use zero2prod::idempotency::{BeginOutcome, IdempotencyKey, StoredResponse};
use zero2prod::store::Store;

fn key(s: &str) -> IdempotencyKey {
    IdempotencyKey::try_from(String::from(s)).expect("the key should be accepted")
}

fn response() -> StoredResponse {
    StoredResponse {
        status: 200,
        headers: vec![(String::from("Content-Type"), String::from("text/plain"))],
        body: b"hello".to_vec(),
    }
}

#[test]
fn idempotency_key_bounds() {
    assert!(IdempotencyKey::try_from(String::new()).is_err());
    assert!(IdempotencyKey::try_from(String::from("abc-123")).is_ok());
    assert!(IdempotencyKey::try_from("k".repeat(50)).is_ok());
    assert!(IdempotencyKey::try_from("k".repeat(51)).is_err());
}

#[test]
fn begin_complete_replay_roundtrip() {
    let mut store = Store::new();
    let k = key("roundtrip");

    assert!(matches!(
        store.begin_or_replay(42, &k, 100),
        BeginOutcome::Started
    ));
    // The same pair again, before completion: the caller must wait.
    assert!(matches!(
        store.begin_or_replay(42, &k, 101),
        BeginOutcome::InFlight
    ));
    assert!(store.get_saved_response(42, &k).is_none());

    assert!(store.complete(42, &k, response()));
    match store.begin_or_replay(42, &k, 102) {
        BeginOutcome::Replay(r) => {
            assert_eq!(r.status, 200);
            assert_eq!(r.body, b"hello".to_vec());
            assert_eq!(r.headers[0].0, "Content-Type");
            assert_eq!(r.headers[0].1, "text/plain");
        }
        other => panic!("expected a replay, got {:?}", other),
    }
    let saved = store.get_saved_response(42, &k).expect("a completed record");
    assert_eq!(saved.status, 200);
    assert_eq!(saved.body, b"hello".to_vec());
}

#[test]
fn keys_are_scoped_per_actor() {
    let mut store = Store::new();
    let k = key("shared-key");
    assert!(matches!(
        store.begin_or_replay(1, &k, 10),
        BeginOutcome::Started
    ));
    // Another actor's identical key is an independent request.
    assert!(matches!(
        store.begin_or_replay(2, &k, 11),
        BeginOutcome::Started
    ));
    assert!(store.complete(1, &k, response()));
    assert!(matches!(
        store.begin_or_replay(2, &k, 12),
        BeginOutcome::InFlight
    ));
}

#[test]
fn complete_without_placeholder_returns_false() {
    let mut store = Store::new();
    let k = key("nothing-here");
    assert!(!store.complete(9, &k, response()));
    // Completing twice does not overwrite the stored response.
    assert!(matches!(
        store.begin_or_replay(9, &k, 1),
        BeginOutcome::Started
    ));
    assert!(store.complete(9, &k, response()));
    let other = StoredResponse {
        status: 500,
        headers: Vec::new(),
        body: Vec::new(),
    };
    assert!(!store.complete(9, &k, other));
    assert_eq!(store.get_saved_response(9, &k).unwrap().status, 200);
}

#[test]
fn stored_response_duplicate_is_byte_identical() {
    let r = response();
    let d = r.duplicate();
    assert_eq!(d.status, r.status);
    assert_eq!(d.headers, r.headers);
    assert_eq!(d.body, r.body);
}
