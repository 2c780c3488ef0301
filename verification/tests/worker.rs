//! The delivery worker's claim/settle protocol: draining, retries, and
//! the treatment of structurally invalid recipients.

use zero2prod::store::{NewsletterIssue, QueueEntry, Store};
use zero2prod::worker::{claim_entry, settle_delivery, ClaimOutcome, SendOutcome};

/// A store holding one issue and one queue entry per given recipient.
fn store_with_queue(recipients: &[&str]) -> Store {
    let mut store = Store::new();
    store.issues.push(NewsletterIssue {
        id: 1,
        title: String::from("Issue"),
        html_content: String::from("<p>body</p>"),
        text_content: String::from("body"),
        published_at: 0,
    });
    store.next_issue_id = 2;
    for r in recipients {
        store.queue.push(QueueEntry {
            issue_id: 1,
            recipient: String::from(*r),
            created_at: 0,
            retry_count: 0,
            claimed: false,
        });
    }
    store
}

#[test]
fn worker_drains_to_empty_queue() {
    let mut store = store_with_queue(&["a@example.com", "b@example.com", "c@example.com"]);
    let mut deliveries = 0;
    loop {
        match claim_entry(&mut store) {
            ClaimOutcome::EmptyQueue => break,
            ClaimOutcome::SkippedInvalid(r) => panic!("unexpected invalid recipient {}", r),
            ClaimOutcome::Claimed(task) => {
                assert_eq!(task.title, "Issue");
                assert_eq!(task.html_content, "<p>body</p>");
                assert_eq!(task.text_content, "body");
                deliveries += 1;
                assert!(settle_delivery(&mut store, &task, SendOutcome::Sent));
            }
        }
    }
    assert_eq!(deliveries, 3);
    assert_eq!(store.queue.len(), 0);
    assert!(matches!(claim_entry(&mut store), ClaimOutcome::EmptyQueue));
}

#[test]
fn invalid_recipient_is_dropped_without_a_send() {
    let mut store = store_with_queue(&["not-an-email", "fine@example.com"]);
    match claim_entry(&mut store) {
        ClaimOutcome::SkippedInvalid(r) => assert_eq!(r, "not-an-email"),
        other => panic!("expected the invalid recipient to be skipped, got {:?}", other),
    }
    // The entry is gone for good: only the valid recipient remains.
    assert_eq!(store.queue.len(), 1);
    assert_eq!(store.queue[0].recipient, "fine@example.com");
    match claim_entry(&mut store) {
        ClaimOutcome::Claimed(task) => {
            assert_eq!(task.recipient, "fine@example.com");
            assert!(settle_delivery(&mut store, &task, SendOutcome::Sent));
        }
        other => panic!("expected a claim, got {:?}", other),
    }
    assert!(matches!(claim_entry(&mut store), ClaimOutcome::EmptyQueue));
}

#[test]
fn transient_failure_keeps_the_entry_for_retry() {
    let mut store = store_with_queue(&["flaky@example.com"]);
    let task = match claim_entry(&mut store) {
        ClaimOutcome::Claimed(task) => task,
        other => panic!("expected a claim, got {:?}", other),
    };
    assert!(settle_delivery(&mut store, &task, SendOutcome::TransientFailure));
    assert_eq!(store.queue.len(), 1);
    assert_eq!(store.queue[0].retry_count, 1);
    assert!(!store.queue[0].claimed);

    // The next poll reclaims the same entry and can finish it.
    let task = match claim_entry(&mut store) {
        ClaimOutcome::Claimed(task) => task,
        other => panic!("expected a reclaim, got {:?}", other),
    };
    assert_eq!(task.recipient, "flaky@example.com");
    assert!(settle_delivery(&mut store, &task, SendOutcome::Sent));
    assert_eq!(store.queue.len(), 0);
}

#[test]
fn claimed_entries_are_invisible_to_other_claims() {
    let mut store = store_with_queue(&["a@example.com", "b@example.com"]);
    let first = match claim_entry(&mut store) {
        ClaimOutcome::Claimed(task) => task,
        other => panic!("expected a claim, got {:?}", other),
    };
    let second = match claim_entry(&mut store) {
        ClaimOutcome::Claimed(task) => task,
        other => panic!("expected a claim, got {:?}", other),
    };
    assert_ne!(first.recipient, second.recipient);
    assert!(matches!(claim_entry(&mut store), ClaimOutcome::EmptyQueue));
    assert!(settle_delivery(&mut store, &first, SendOutcome::Sent));
    assert!(settle_delivery(&mut store, &second, SendOutcome::Sent));
    assert_eq!(store.queue.len(), 0);
}

#[test]
fn settling_an_unclaimed_pair_changes_nothing() {
    let mut store = store_with_queue(&["a@example.com"]);
    let task = zero2prod::worker::DeliveryTask {
        issue_id: 1,
        recipient: String::from("a@example.com"),
        title: String::from("Issue"),
        html_content: String::from("<p>body</p>"),
        text_content: String::from("body"),
    };
    // The entry exists but nobody claimed it: settle refuses.
    assert!(!settle_delivery(&mut store, &task, SendOutcome::Sent));
    assert_eq!(store.queue.len(), 1);
}
