//! The delivery worker: claim one queue entry at a time, hand the caller a
//! delivery task for the email transport, and settle the entry on the
//! transport's answer — delete on success, keep for retry on a transient
//! failure, and drop entries whose stored recipient is structurally
//! invalid without ever attempting them.
//!
//! The claim models a row-level lock: a claimed entry is invisible to
//! other claims until it is settled. The caller drives the loop — claim,
//! send, settle — so pacing, backoff, and draining stay under its control.

use vstd::prelude::*;
use crate::domain::valid_email_chars;
use crate::store::{
    has_issue, lookup_issue, NewsletterIssue, QueueEntry, Store, StoreModel,
};

verus! {

/// One claimed delivery obligation: the issue's content joined with the
/// recipient the transport should receive.
#[derive(Debug)]
pub struct DeliveryTask {
    pub issue_id: u64,
    pub recipient: String,
    pub title: String,
    pub html_content: String,
    pub text_content: String,
}

/// Mathematical shape of a delivery task.
#[verifier::ext_equal]
pub ghost struct TaskModel {
    pub issue_id: u64,
    pub recipient: Seq<char>,
    pub title: Seq<char>,
    pub html_content: Seq<char>,
    pub text_content: Seq<char>,
}

impl View for DeliveryTask {
    type V = TaskModel;

    open spec fn view(&self) -> TaskModel {
        TaskModel {
            issue_id: self.issue_id,
            recipient: self.recipient@,
            title: self.title@,
            html_content: self.html_content@,
            text_content: self.text_content@,
        }
    }
}

/// What one claim attempt found.
#[derive(Debug)]
pub enum ClaimOutcome {
    /// No unclaimed entry is left.
    EmptyQueue,
    /// The first unclaimed entry's recipient fails structural validation:
    /// the entry was removed without a transport call, and the recipient
    /// is reported for logging.
    SkippedInvalid(String),
    /// An entry was claimed; the caller must invoke the transport and then
    /// settle the task.
    Claimed(DeliveryTask),
}

/// Mathematical shape of a `ClaimOutcome`.
pub ghost enum ClaimModel {
    EmptyQueue,
    SkippedInvalid(Seq<char>),
    Claimed(TaskModel),
}

impl View for ClaimOutcome {
    type V = ClaimModel;

    open spec fn view(&self) -> ClaimModel {
        match self {
            ClaimOutcome::EmptyQueue => ClaimModel::EmptyQueue,
            ClaimOutcome::SkippedInvalid(r) => ClaimModel::SkippedInvalid(r@),
            ClaimOutcome::Claimed(t) => ClaimModel::Claimed(t@),
        }
    }
}

/// The email transport's answer on one send, as the worker reads it.
#[derive(PartialEq, Eq, Structural, Clone, Copy, Debug)]
pub enum SendOutcome {
    /// The transport accepted the email: the entry is done.
    Sent,
    /// A retryable failure: the entry must stay queued.
    TransientFailure,
}

/// Index of the first unclaimed entry, or -1 when every entry is claimed
/// or the queue is empty.
pub open spec fn next_unclaimed(queue: Seq<QueueEntry>) -> int
    decreases queue.len(),
{
    if queue.len() == 0 {
        -1
    } else if !queue[0].claimed {
        0int
    } else {
        let r = next_unclaimed(queue.drop_first());
        if r == -1 {
            -1
        } else {
            r + 1
        }
    }
}

/// The index returned by `next_unclaimed` is the first unclaimed entry,
/// and -1 means there is none.
pub proof fn lemma_next_unclaimed(queue: Seq<QueueEntry>)
    ensures
        ({
            let i = next_unclaimed(queue);
            &&& i == -1 ==> forall|j: int| 0 <= j < queue.len() ==> (#[trigger] queue[j]).claimed
            &&& i != -1 ==> 0 <= i < queue.len() && !queue[i].claimed && forall|j: int|
                0 <= j < i ==> (#[trigger] queue[j]).claimed
        }),
    decreases queue.len(),
{
    if queue.len() > 0 && queue[0].claimed {
        lemma_next_unclaimed(queue.drop_first());
        assert(forall|j: int|
            1 <= j < queue.len() ==> queue.drop_first()[j - 1] == #[trigger] queue[j]);
    }
}

/// Index of the first entry for (issue, recipient), or -1. Under the
/// store's well-formedness there is at most one such entry.
pub open spec fn entry_index(queue: Seq<QueueEntry>, issue_id: u64, recipient: Seq<char>) -> int
    decreases queue.len(),
{
    if queue.len() == 0 {
        -1
    } else if queue[0].issue_id == issue_id && queue[0].recipient@ == recipient {
        0int
    } else {
        let r = entry_index(queue.drop_first(), issue_id, recipient);
        if r == -1 {
            -1
        } else {
            r + 1
        }
    }
}

/// The index returned by `entry_index` is the first match, and -1 means
/// there is none.
pub proof fn lemma_entry_index(queue: Seq<QueueEntry>, issue_id: u64, recipient: Seq<char>)
    ensures
        ({
            let i = entry_index(queue, issue_id, recipient);
            &&& i == -1 ==> forall|j: int|
                0 <= j < queue.len() ==> !((#[trigger] queue[j]).issue_id == issue_id
                    && queue[j].recipient@ == recipient)
            &&& i != -1 ==> 0 <= i < queue.len() && queue[i].issue_id == issue_id
                && queue[i].recipient@ == recipient && forall|j: int|
                0 <= j < i ==> !((#[trigger] queue[j]).issue_id == issue_id
                    && queue[j].recipient@ == recipient)
        }),
    decreases queue.len(),
{
    if queue.len() > 0 && !(queue[0].issue_id == issue_id && queue[0].recipient@ == recipient) {
        lemma_entry_index(queue.drop_first(), issue_id, recipient);
        assert(forall|j: int|
            1 <= j < queue.len() ==> queue.drop_first()[j - 1] == #[trigger] queue[j]);
    }
}

/// `lookup_issue` finds an issue exactly when one with that id exists, and
/// then returns it.
pub proof fn lemma_lookup_issue(issues: Seq<NewsletterIssue>, id: u64)
    ensures
        lookup_issue(issues, id) is Some <==> has_issue(issues, id),
        lookup_issue(issues, id) matches Some(iss) ==> iss.id == id && exists|j: int|
            0 <= j < issues.len() && #[trigger] issues[j] == iss,
    decreases issues.len(),
{
    if issues.len() > 0 {
        lemma_lookup_issue(issues.drop_first(), id);
        assert(forall|j: int|
            1 <= j < issues.len() ==> issues.drop_first()[j - 1] == #[trigger] issues[j]);
    }
}

/// Retry count after a transient failure, saturating at the top.
pub open spec fn bump_retry(c: u64) -> u64 {
    if c < u64::MAX {
        (c + 1) as u64
    } else {
        c
    }
}

/// State after one claim attempt: nothing changes when every entry is
/// claimed; the first unclaimed entry is removed when its recipient is
/// invalid, and locked (claimed) otherwise.
pub open spec fn claim_next(m: StoreModel) -> StoreModel {
    let i = next_unclaimed(m.queue);
    if i == -1 {
        m
    } else if !valid_email_chars(m.queue[i].recipient@) {
        StoreModel { queue: m.queue.remove(i), ..m }
    } else {
        StoreModel { queue: m.queue.update(i, QueueEntry { claimed: true, ..m.queue[i] }), ..m }
    }
}

/// Outcome of one claim attempt.
pub open spec fn claim_outcome(m: StoreModel) -> ClaimModel {
    let i = next_unclaimed(m.queue);
    if i == -1 {
        ClaimModel::EmptyQueue
    } else if !valid_email_chars(m.queue[i].recipient@) {
        ClaimModel::SkippedInvalid(m.queue[i].recipient@)
    } else {
        match lookup_issue(m.issues, m.queue[i].issue_id) {
            Some(iss) => ClaimModel::Claimed(
                TaskModel {
                    issue_id: m.queue[i].issue_id,
                    recipient: m.queue[i].recipient@,
                    title: iss.title@,
                    html_content: iss.html_content@,
                    text_content: iss.text_content@,
                },
            ),
            None => ClaimModel::EmptyQueue,
        }
    }
}

/// State after settling (issue, recipient) with what the transport reported:
/// a claimed entry is deleted on success, or released with its retry
/// count bumped on a transient failure; anything else is left untouched.
pub open spec fn settle_next(
    m: StoreModel,
    issue_id: u64,
    recipient: Seq<char>,
    outcome: SendOutcome,
) -> StoreModel {
    let i = entry_index(m.queue, issue_id, recipient);
    if i == -1 || !m.queue[i].claimed {
        m
    } else {
        match outcome {
            SendOutcome::Sent => StoreModel { queue: m.queue.remove(i), ..m },
            SendOutcome::TransientFailure => StoreModel {
                queue: m.queue.update(
                    i,
                    QueueEntry {
                        claimed: false,
                        retry_count: bump_retry(m.queue[i].retry_count),
                        ..m.queue[i]
                    },
                ),
                ..m
            },
        }
    }
}

/// Whether `settle_delivery` finds a claimed entry to settle.
pub open spec fn settle_finds_entry(m: StoreModel, issue_id: u64, recipient: Seq<char>) -> bool {
    let i = entry_index(m.queue, issue_id, recipient);
    i != -1 && m.queue[i].claimed
}

/// Removing a queue entry preserves the store's well-formedness.
pub proof fn lemma_queue_remove_wf(m: StoreModel, i: int)
    requires
        m.wf(),
        0 <= i < m.queue.len(),
    ensures
        (StoreModel { queue: m.queue.remove(i), ..m }).wf(),
{
    let q = m.queue.remove(i);
    assert forall|k: int| 0 <= k < q.len() implies #[trigger] q[k] == m.queue[
        if k < i {
            k
        } else {
            k + 1
        }
    ] by {}
}

/// Replacing a queue entry by one with the same key and an issue that
/// still exists preserves the store's well-formedness.
pub proof fn lemma_queue_update_wf(m: StoreModel, i: int, e: QueueEntry)
    requires
        m.wf(),
        0 <= i < m.queue.len(),
        e.issue_id == m.queue[i].issue_id,
        e.recipient@ == m.queue[i].recipient@,
    ensures
        (StoreModel { queue: m.queue.update(i, e), ..m }).wf(),
{
}


/// Claims one queue entry, modelling a skip-locked row claim.
///
/// Returns the next unclaimed entry joined with its issue as a delivery
/// task, after locking the entry; removes — without any transport call —
/// an entry whose stored recipient is structurally invalid; or reports
/// the queue empty of unclaimed work.
#[verifier::loop_isolation(false)]
pub fn claim_entry(store: &mut Store) -> (r: ClaimOutcome)
    requires
        old(store).wf(),
    ensures
        final(store).wf(),
        final(store)@ == claim_next(old(store)@),
        r@ == claim_outcome(old(store)@),
{
    proof {
        lemma_next_unclaimed(store@.queue);
    }
    let n = store.queue.len();
    let mut i: usize = 0;
    while i < n
        invariant
            0 <= i <= n,
            *store == *old(store),
            forall|j: int| 0 <= j < i ==> (#[trigger] store@.queue[j]).claimed,
        decreases n - i,
    {
        if !store.queue[i].claimed {
            proof {
                assert(next_unclaimed(old(store)@.queue) == i as int);
            }
            let valid = crate::domain::is_valid_email(store.queue[i].recipient.as_str());
            if !valid {
                let entry = store.queue.remove(i);
                proof {
                    lemma_queue_remove_wf(old(store)@, i as int);
                    assert(store@ =~= claim_next(old(store)@));
                }
                return ClaimOutcome::SkippedInvalid(entry.recipient);
            }
            let mut entry = store.queue.remove(i);
            let issue_id = entry.issue_id;
            let recipient = entry.recipient.clone();
            entry.claimed = true;
            store.queue.insert(i, entry);
            proof {
                assert(store.queue@ =~= old(store)@.queue.update(
                    i as int,
                    QueueEntry { claimed: true, ..old(store)@.queue[i as int] },
                ));
                lemma_queue_update_wf(
                    old(store)@,
                    i as int,
                    QueueEntry { claimed: true, ..old(store)@.queue[i as int] },
                );
                assert(store@ =~= claim_next(old(store)@));
                lemma_lookup_issue(old(store)@.issues, issue_id);
                assert(has_issue(old(store)@.issues, issue_id));
            }
            let m = store.issues.len();
            let mut j: usize = 0;
            while j < m
                invariant
                    0 <= j <= m,
                    m == store.issues@.len(),
                    store@ == claim_next(old(store)@),
                    store.issues@ == old(store)@.issues,
                    final(store).wf(),
                    issue_id == old(store)@.queue[next_unclaimed(old(store)@.queue)].issue_id,
                    recipient@ == old(store)@.queue[
                        next_unclaimed(old(store)@.queue)
                    ].recipient@,
                    forall|jj: int| 0 <= jj < j ==> (#[trigger] store.issues@[jj]).id != issue_id,
                decreases m - j,
            {
                if store.issues[j].id == issue_id {
                    proof {
                        let iss = lookup_issue(old(store)@.issues, issue_id).unwrap();
                        let w = choose|w: int|
                            0 <= w < old(store)@.issues.len() && #[trigger] old(
                                store,
                            )@.issues[w] == iss;
                        assert(old(store)@.issues[w].id == old(store)@.issues[j as int].id);
                        assert(w == j as int);
                        assert(iss == store.issues@[j as int]);
                    }
                    let task = DeliveryTask {
                        issue_id,
                        recipient,
                        title: store.issues[j].title.clone(),
                        html_content: store.issues[j].html_content.clone(),
                        text_content: store.issues[j].text_content.clone(),
                    };
                    return ClaimOutcome::Claimed(task);
                }
                j = j + 1;
            }
            proof {
                let w = choose|w: int|
                    0 <= w < old(store)@.issues.len() && (#[trigger] old(store)@.issues[w]).id
                        == issue_id;
                assert(false);
            }
            return ClaimOutcome::EmptyQueue;
        }
        i = i + 1;
    }
    ClaimOutcome::EmptyQueue
}

/// Settles a previously claimed task on what the transport reported: deletes
/// the entry when the email was sent, or releases it with a bumped retry
/// count on a transient failure. Returns whether a claimed entry for the
/// task's (issue, recipient) pair was found; any other state of the queue
/// is left untouched.
#[verifier::loop_isolation(false)]
pub fn settle_delivery(store: &mut Store, task: &DeliveryTask, outcome: SendOutcome) -> (r: bool)
    requires
        old(store).wf(),
    ensures
        final(store).wf(),
        final(store)@ == settle_next(old(store)@, task.issue_id, task.recipient@, outcome),
        r == settle_finds_entry(old(store)@, task.issue_id, task.recipient@),
{
    proof {
        lemma_entry_index(store@.queue, task.issue_id, task.recipient@);
    }
    let n = store.queue.len();
    let mut i: usize = 0;
    while i < n
        invariant
            0 <= i <= n,
            *store == *old(store),
            forall|j: int|
                0 <= j < i ==> !((#[trigger] store@.queue[j]).issue_id == task.issue_id
                    && store@.queue[j].recipient@ == task.recipient@),
        decreases n - i,
    {
        let found = {
            let e = &store.queue[i];
            e.issue_id == task.issue_id && e.recipient == task.recipient
        };
        if found {
            proof {
                assert(entry_index(old(store)@.queue, task.issue_id, task.recipient@)
                    == i as int);
            }
            if !store.queue[i].claimed {
                return false;
            }
            match outcome {
                SendOutcome::Sent => {
                    store.queue.remove(i);
                    proof {
                        lemma_queue_remove_wf(old(store)@, i as int);
                        assert(store@ =~= settle_next(
                            old(store)@,
                            task.issue_id,
                            task.recipient@,
                            outcome,
                        ));
                    }
                    return true;
                },
                SendOutcome::TransientFailure => {
                    let mut entry = store.queue.remove(i);
                    entry.claimed = false;
                    if entry.retry_count < u64::MAX {
                        entry.retry_count = entry.retry_count + 1;
                    }
                    store.queue.insert(i, entry);
                    proof {
                        let e0 = old(store)@.queue[i as int];
                        let bumped = QueueEntry {
                            claimed: false,
                            retry_count: bump_retry(e0.retry_count),
                            ..e0
                        };
                        assert(store.queue@ =~= old(store)@.queue.update(i as int, bumped));
                        lemma_queue_update_wf(old(store)@, i as int, bumped);
                        assert(store@ =~= settle_next(
                            old(store)@,
                            task.issue_id,
                            task.recipient@,
                            outcome,
                        ));
                    }
                    return true;
                },
            }
        }
        i = i + 1;
    }
    false
}


/// One worker round driven to a terminal or transient answer: claim the
/// next entry and, when a task is handed out, settle it as sent. A round
/// on an empty queue changes nothing; a round that meets an invalid
/// recipient drops that entry inside the claim.
pub open spec fn worker_round(m: StoreModel) -> StoreModel {
    match claim_outcome(m) {
        ClaimModel::EmptyQueue => claim_next(m),
        ClaimModel::SkippedInvalid(_) => claim_next(m),
        ClaimModel::Claimed(t) => settle_next(
            claim_next(m),
            t.issue_id,
            t.recipient,
            SendOutcome::Sent,
        ),
    }
}

/// `n` worker rounds, one after the other.
pub open spec fn drain_rounds(m: StoreModel, n: nat) -> StoreModel
    decreases n,
{
    if n == 0 {
        m
    } else {
        drain_rounds(worker_round(m), (n - 1) as nat)
    }
}

/// On a well-formed store whose queue is non-empty, all-valid and
/// all-unclaimed, one successful round hands out a task and removes
/// exactly the first entry.
proof fn lemma_round_removes_first(m: StoreModel)
    requires
        m.wf(),
        m.queue.len() > 0,
        forall|k: int|
            0 <= k < m.queue.len() ==> valid_email_chars((#[trigger] m.queue[k]).recipient@),
        forall|k: int| 0 <= k < m.queue.len() ==> !(#[trigger] m.queue[k]).claimed,
    ensures
        claim_outcome(m) is Claimed,
        worker_round(m) =~= (StoreModel { queue: m.queue.drop_first(), ..m }),
        worker_round(m).wf(),
{
    lemma_next_unclaimed(m.queue);
    assert(next_unclaimed(m.queue) == 0);
    let e0 = m.queue[0];
    lemma_lookup_issue(m.issues, e0.issue_id);
    assert(has_issue(m.issues, e0.issue_id));
    let locked = QueueEntry { claimed: true, ..e0 };
    let m1 = claim_next(m);
    assert(m1.queue == m.queue.update(0, locked));
    lemma_queue_update_wf(m, 0, locked);
    lemma_entry_index(m1.queue, e0.issue_id, e0.recipient@);
    assert(m1.queue[0].issue_id == e0.issue_id && m1.queue[0].recipient@ == e0.recipient@);
    assert(entry_index(m1.queue, e0.issue_id, e0.recipient@) == 0);
    lemma_queue_remove_wf(m1, 0);
    assert(m1.queue.remove(0) =~= m.queue.drop_first());
    assert(worker_round(m) =~= (StoreModel { queue: m.queue.drop_first(), ..m }));
}

/// Law: on N well-formed, unclaimed entries with valid recipients, the
/// worker drains deterministically — each round hands out exactly one
/// task and removes exactly one entry, the first N rounds consume the
/// queue front to back, and the claim after round N reports the queue
/// empty. Nothing outside the queue is touched.
pub proof fn lemma_drain_to_empty(m: StoreModel, n: nat)
    requires
        m.wf(),
        n <= m.queue.len(),
        forall|k: int|
            0 <= k < m.queue.len() ==> valid_email_chars((#[trigger] m.queue[k]).recipient@),
        forall|k: int| 0 <= k < m.queue.len() ==> !(#[trigger] m.queue[k]).claimed,
    ensures
        ({
            let d = drain_rounds(m, n);
            &&& d.wf()
            &&& d.queue =~= m.queue.skip(n as int)
            &&& d.issues == m.issues
            &&& d.subscribers == m.subscribers
            &&& d.idempotency == m.idempotency
            &&& d.users == m.users
            &&& d.subscription_tokens == m.subscription_tokens
            &&& d.next_issue_id == m.next_issue_id
            &&& n < m.queue.len() ==> claim_outcome(d) is Claimed
            &&& n == m.queue.len() ==> claim_outcome(d) == ClaimModel::EmptyQueue
        }),
    decreases n,
{
    if n == 0 {
        assert(m.queue.skip(0) =~= m.queue);
        if m.queue.len() == 0 {
            lemma_next_unclaimed(m.queue);
        } else {
            lemma_round_removes_first(m);
        }
    } else {
        lemma_round_removes_first(m);
        let m1 = worker_round(m);
        assert(m1.queue =~= m.queue.drop_first());
        assert(forall|k: int|
            0 <= k < m1.queue.len() ==> m1.queue[k] == #[trigger] m.queue[k + 1]);
        lemma_drain_to_empty(m1, (n - 1) as nat);
        assert(drain_rounds(m, n) == drain_rounds(m1, (n - 1) as nat));
        assert(m1.queue.skip(n - 1) =~= m.queue.skip(n as int));
    }
}

/// Law: a queue entry whose stored recipient fails structural validation
/// is removed by the claim that reaches it — before any transport call —
/// and no entry for its (issue, recipient) pair remains to be retried.
pub proof fn lemma_invalid_recipient_dropped(m: StoreModel)
    requires
        m.wf(),
        ({
            let i = next_unclaimed(m.queue);
            i != -1 && !valid_email_chars(m.queue[i].recipient@)
        }),
    ensures
        ({
            let i = next_unclaimed(m.queue);
            let next = claim_next(m);
            &&& claim_outcome(m) == ClaimModel::SkippedInvalid(m.queue[i].recipient@)
            &&& next.queue.len() == m.queue.len() - 1
            &&& next.wf()
            &&& forall|k: int|
                0 <= k < next.queue.len() ==> !((#[trigger] next.queue[k]).issue_id
                    == m.queue[i].issue_id && next.queue[k].recipient@ == m.queue[i].recipient@)
        }),
{
    let i = next_unclaimed(m.queue);
    lemma_next_unclaimed(m.queue);
    lemma_queue_remove_wf(m, i);
    let next = claim_next(m);
    assert forall|k: int|
        0 <= k < next.queue.len() implies !((#[trigger] next.queue[k]).issue_id
        == m.queue[i].issue_id && next.queue[k].recipient@ == m.queue[i].recipient@) by {
        if k < i {
            assert(next.queue[k] == m.queue[k]);
        } else {
            assert(next.queue[k] == m.queue[k + 1]);
        }
    }
}


/// Law: one publish action on N confirmed subscribers with valid
/// addresses and an idle queue yields exactly N entries, and exactly N
/// successful worker rounds drain them before the claim reports the
/// queue empty.
pub proof fn lemma_publish_then_drain(
    m: StoreModel,
    actor: u128,
    req: crate::publish::NewsletterRequestBody,
    now: i64,
)
    requires
        m.wf(),
        m.queue.len() == 0,
        m.next_issue_id < u64::MAX,
        crate::idempotency::valid_key(req.idempotency_key@),
        crate::idempotency::lookup_idem(m.idempotency, actor, req.idempotency_key@) is None,
        forall|j: int|
            0 <= j < m.subscribers.len() ==> valid_email_chars(
                (#[trigger] m.subscribers[j]).email@,
            ),
    ensures
        ({
            let m1 = crate::publish::publish_next(m, actor, req, now);
            let n = crate::publish::confirmed_count(m.subscribers);
            &&& m1.queue.len() == n
            &&& drain_rounds(m1, n).queue.len() == 0
            &&& n == 0 ==> claim_outcome(m1) == ClaimModel::EmptyQueue
            &&& claim_outcome(drain_rounds(m1, n)) == ClaimModel::EmptyQueue
        }),
{
    let m1 = crate::publish::publish_next(m, actor, req, now);
    let es = crate::publish::snapshot_entries(m.subscribers, m.next_issue_id, now);
    crate::publish::lemma_snapshot_entries(m.subscribers, m.next_issue_id, now);
    crate::publish::lemma_publish_next_wf(m, actor, req, now);
    assert(m1.queue =~= es);
    assert forall|k: int| 0 <= k < m1.queue.len() implies valid_email_chars(
        (#[trigger] m1.queue[k]).recipient@,
    ) by {
        assert(crate::publish::entry_from_confirmed(m.subscribers, es[k]));
        let j = choose|j: int|
            0 <= j < m.subscribers.len() && (#[trigger] m.subscribers[j]).status
                == crate::store::SubscriberStatus::Confirmed && es[k].recipient
                == m.subscribers[j].email;
        assert(valid_email_chars(m.subscribers[j].email@));
    }
    lemma_drain_to_empty(m1, m1.queue.len() as nat);
}

} // verus!
