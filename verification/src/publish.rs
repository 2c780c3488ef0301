//! The publish request path: validate the idempotency key, replay a
//! completed submission, or — exactly once per (actor, key) — create the
//! newsletter issue, snapshot the confirmed subscribers into the delivery
//! queue, and cache the success response, all as one atomic step.

use vstd::prelude::*;
use vstd::utf8::encode_utf8;
use crate::idempotency::{
    begin_next, lookup_idem, valid_key, BeginOutcome, IdemModel, IdempotencyKey, ResponseModel,
    StoredResponse,
};
use crate::store::{NewsletterIssue, QueueEntry, Store, StoreModel, SubscriberRecord,
    SubscriberStatus};

verus! {

/// The admin publish form: one newsletter issue plus the client's
/// idempotency key.
#[derive(Debug)]
pub struct NewsletterRequestBody {
    pub title: String,
    pub text_content: String,
    pub html_content: String,
    pub idempotency_key: String,
}

/// How the publish handler answered one submission.
#[derive(Debug)]
pub enum PublishOutcome {
    /// The idempotency key is malformed; nothing was attempted.
    Invalid,
    /// An identical submission is still in flight; the caller should
    /// retry or poll for the completed response.
    InFlight,
    /// The pair (actor, key) already completed: the cached response,
    /// byte for byte.
    Replay(StoredResponse),
    /// The issue and its queue entries were created; this response was
    /// cached for future replays.
    Published(StoredResponse),
}

/// Mathematical shape of a `PublishOutcome`.
pub ghost enum PublishModel {
    Invalid,
    InFlight,
    Replay(ResponseModel),
    Published(ResponseModel),
}

impl View for PublishOutcome {
    type V = PublishModel;

    open spec fn view(&self) -> PublishModel {
        match self {
            PublishOutcome::Invalid => PublishModel::Invalid,
            PublishOutcome::InFlight => PublishModel::InFlight,
            PublishOutcome::Replay(r) => PublishModel::Replay(r@),
            PublishOutcome::Published(r) => PublishModel::Published(r@),
        }
    }
}

/// The response a successful publish returns and caches: a redirect to the
/// newsletter form whose body announces that delivery is under way.
pub open spec fn success_response_model() -> ResponseModel {
    ResponseModel {
        status: 303,
        headers: seq![("Location"@, "/admin/newsletters"@)],
        body: encode_utf8("accepted"@),
    }
}

/// The newsletter issue a request creates.
pub open spec fn fresh_issue(id: u64, req: NewsletterRequestBody, now: i64) -> NewsletterIssue {
    NewsletterIssue {
        id,
        title: req.title,
        text_content: req.text_content,
        html_content: req.html_content,
        published_at: now,
    }
}

/// One queue entry per confirmed subscriber, in subscriber order: the
/// snapshot taken when an issue is created.
pub open spec fn snapshot_entries(
    subs: Seq<SubscriberRecord>,
    issue_id: u64,
    now: i64,
) -> Seq<QueueEntry>
    decreases subs.len(),
{
    if subs.len() == 0 {
        Seq::empty()
    } else {
        let rest = snapshot_entries(subs.drop_last(), issue_id, now);
        if subs.last().status == SubscriberStatus::Confirmed {
            rest.push(
                QueueEntry {
                    issue_id,
                    recipient: subs.last().email,
                    created_at: now,
                    retry_count: 0,
                    claimed: false,
                },
            )
        } else {
            rest
        }
    }
}

/// How many subscribers are confirmed.
pub open spec fn confirmed_count(subs: Seq<SubscriberRecord>) -> nat
    decreases subs.len(),
{
    if subs.len() == 0 {
        0
    } else {
        confirmed_count(subs.drop_last()) + if subs.last().status
            == SubscriberStatus::Confirmed {
            1nat
        } else {
            0nat
        }
    }
}

/// The entry's recipient is the email of some confirmed subscriber.
pub open spec fn entry_from_confirmed(subs: Seq<SubscriberRecord>, e: QueueEntry) -> bool {
    exists|j: int|
        0 <= j < subs.len() && (#[trigger] subs[j]).status == SubscriberStatus::Confirmed
            && e.recipient == subs[j].email
}

/// Everything the snapshot guarantees: one entry per confirmed subscriber,
/// each fresh and unclaimed, each addressed to a confirmed subscriber, and
/// with pairwise distinct recipients whenever subscriber emails are
/// distinct.
pub proof fn lemma_snapshot_entries(subs: Seq<SubscriberRecord>, issue_id: u64, now: i64)
    ensures
        ({
            let es = snapshot_entries(subs, issue_id, now);
            &&& es.len() == confirmed_count(subs)
            &&& forall|k: int|
                0 <= k < es.len() ==> (#[trigger] es[k]).issue_id == issue_id && es[k].created_at
                    == now && es[k].retry_count == 0 && !es[k].claimed
            &&& forall|k: int| 0 <= k < es.len() ==> entry_from_confirmed(subs, #[trigger] es[k])
            &&& crate::store::unique_subscribers(subs) ==> forall|k1: int, k2: int|
                #![trigger es[k1], es[k2]]
                0 <= k1 < k2 < es.len() ==> es[k1].recipient@ != es[k2].recipient@
        }),
    decreases subs.len(),
{
    let es = snapshot_entries(subs, issue_id, now);
    if subs.len() > 0 {
        let front = subs.drop_last();
        lemma_snapshot_entries(front, issue_id, now);
        let rest = snapshot_entries(front, issue_id, now);
        assert forall|k: int| 0 <= k < es.len() implies entry_from_confirmed(
            subs,
            #[trigger] es[k],
        ) by {
            if k < rest.len() {
                assert(entry_from_confirmed(front, rest[k]));
                let j = choose|j: int|
                    0 <= j < front.len() && (#[trigger] front[j]).status
                        == SubscriberStatus::Confirmed && rest[k].recipient == front[j].email;
                assert(subs[j] == front[j]);
                assert(entry_from_confirmed(subs, es[k]));
            } else {
                assert(subs.last().status == SubscriberStatus::Confirmed);
                assert(es[k].recipient == subs[subs.len() - 1].email);
            }
        }
        if crate::store::unique_subscribers(subs) {
            assert(crate::store::unique_subscribers(front)) by {
                assert(forall|i: int|
                    0 <= i < front.len() ==> front[i] == #[trigger] subs[i]);
            }
            assert forall|k1: int, k2: int|
                #![trigger es[k1], es[k2]]
                0 <= k1 < k2 < es.len() implies es[k1].recipient@ != es[k2].recipient@ by {
                if k2 < rest.len() {
                } else {
                    // k2 addresses the last subscriber; k1 addresses an
                    // earlier one, whose email is distinct.
                    assert(entry_from_confirmed(front, rest[k1]));
                    let j = choose|j: int|
                        0 <= j < front.len() && (#[trigger] front[j]).status
                            == SubscriberStatus::Confirmed && rest[k1].recipient
                            == front[j].email;
                    assert(subs[j] == front[j]);
                    assert(subs[j].email@ != subs[subs.len() - 1].email@);
                }
            }
        }
    }
}

/// State after a publish submission. A malformed key or a known (actor,
/// key) pair leaves the store unchanged; a fresh pair appends the issue,
/// its queue snapshot, and the completed idempotency record, atomically.
pub open spec fn publish_next(
    m: StoreModel,
    actor: u128,
    req: NewsletterRequestBody,
    now: i64,
) -> StoreModel {
    if !valid_key(req.idempotency_key@) {
        m
    } else if lookup_idem(m.idempotency, actor, req.idempotency_key@) is Some {
        m
    } else {
        StoreModel {
            issues: m.issues.push(fresh_issue(m.next_issue_id, req, now)),
            queue: m.queue + snapshot_entries(m.subscribers, m.next_issue_id, now),
            idempotency: m.idempotency.push(
                IdemModel {
                    actor_id: actor,
                    key: req.idempotency_key@,
                    created_at: now,
                    response: Some(success_response_model()),
                },
            ),
            next_issue_id: (m.next_issue_id + 1) as u64,
            ..m
        }
    }
}

/// Outcome of a publish submission, case by case.
pub open spec fn publish_outcome_spec(
    m: StoreModel,
    actor: u128,
    req: NewsletterRequestBody,
) -> PublishModel {
    if !valid_key(req.idempotency_key@) {
        PublishModel::Invalid
    } else {
        match lookup_idem(m.idempotency, actor, req.idempotency_key@) {
            Some(rec) => match rec.response {
                Some(r) => PublishModel::Replay(r),
                None => PublishModel::InFlight,
            },
            None => PublishModel::Published(success_response_model()),
        }
    }
}

/// Builds the concrete success response.
fn success_response() -> (r: StoredResponse)
    ensures
        r@ == success_response_model(),
{
    let mut headers: Vec<(String, String)> = Vec::new();
    headers.push((String::from_str("Location"), String::from_str("/admin/newsletters")));
    let body: Vec<u8> = vstd::slice::slice_to_vec("accepted".as_bytes());
    let r = StoredResponse { status: 303, headers, body };
    proof {
        assert(r@.headers =~= success_response_model().headers);
        assert(r@ =~= success_response_model());
    }
    r
}


/// Serves one publish submission.
///
/// Validates the idempotency key, then either replays the cached response
/// for a completed (actor, key) pair, reports a pair still in flight, or
/// creates the newsletter issue, snapshots the confirmed subscribers into
/// the delivery queue, and caches the success response — all in one step,
/// so no reader ever observes an issue with a partial fan-out.
#[verifier::loop_isolation(false)]
pub fn publish_newsletter(
    store: &mut Store,
    user_id: u128,
    form: &NewsletterRequestBody,
    now: i64,
) -> (r: PublishOutcome)
    requires
        old(store).wf(),
        old(store)@.next_issue_id < u64::MAX,
    ensures
        final(store).wf(),
        final(store)@ == publish_next(old(store)@, user_id, *form, now),
        r@ == publish_outcome_spec(old(store)@, user_id, *form),
{
    let key = match IdempotencyKey::try_from(form.idempotency_key.clone()) {
        Ok(k) => k,
        Err(_) => {
            return PublishOutcome::Invalid;
        },
    };
    match store.begin_or_replay(user_id, &key, now) {
        BeginOutcome::Replay(resp) => {
            return PublishOutcome::Replay(resp);
        },
        BeginOutcome::InFlight => {
            return PublishOutcome::InFlight;
        },
        BeginOutcome::Started => {},
    }
    // The pair was fresh and the placeholder is ours; run the execution.
    proof {
        crate::idempotency::lemma_idem_index(old(store)@.idempotency, user_id, key@);
    }
    let issue_id = store.next_issue_id;
    let issue = NewsletterIssue {
        id: issue_id,
        title: form.title.clone(),
        text_content: form.text_content.clone(),
        html_content: form.html_content.clone(),
        published_at: now,
    };
    store.issues.push(issue);
    store.next_issue_id = issue_id + 1;
    let nsubs = store.subscribers.len();
    let mut i: usize = 0;
    while i < nsubs
        invariant
            0 <= i <= nsubs,
            nsubs == store.subscribers@.len(),
            store.subscribers@ == old(store)@.subscribers,
            store.subscription_tokens@ == old(store)@.subscription_tokens,
            store.users@ == old(store)@.users,
            store@.idempotency == begin_next(old(store)@, user_id, key@, now).idempotency,
            store.issues@ == old(store)@.issues.push(
                fresh_issue(old(store)@.next_issue_id, *form, now),
            ),
            store.next_issue_id == old(store)@.next_issue_id + 1,
            issue_id == old(store)@.next_issue_id,
            store.queue@ == old(store)@.queue + snapshot_entries(
                old(store)@.subscribers.take(i as int),
                issue_id,
                now,
            ),
        decreases nsubs - i,
    {
        let confirmed = store.subscribers[i].status == SubscriberStatus::Confirmed;
        if confirmed {
            let email = store.subscribers[i].email.clone();
            store.queue.push(
                QueueEntry {
                    issue_id,
                    recipient: email,
                    created_at: now,
                    retry_count: 0,
                    claimed: false,
                },
            );
        }
        proof {
            let subs = old(store)@.subscribers;
            assert(subs.take(i + 1).drop_last() =~= subs.take(i as int));
            assert(subs.take(i + 1).last() == subs[i as int]);
            if !confirmed {
                assert(store.queue@ == old(store)@.queue + snapshot_entries(
                    subs.take(i + 1),
                    issue_id,
                    now,
                ));
            }
        }
        i = i + 1;
    }
    proof {
        assert(old(store)@.subscribers.take(nsubs as int) =~= old(store)@.subscribers);
    }
    let response = success_response();
    let out = response.duplicate();
    // The intermediate state is well-formed: the fresh issue id is above
    // every existing one, and the snapshot's recipients are distinct and
    // all reference the fresh issue.
    proof {
        let m0 = old(store)@;
        let es = snapshot_entries(m0.subscribers, issue_id, now);
        lemma_snapshot_entries(m0.subscribers, issue_id, now);
        assert forall|k1: int, k2: int|
            #![trigger store@.queue[k1], store@.queue[k2]]
            0 <= k1 < k2 < store@.queue.len() implies !(store@.queue[k1].issue_id
            == store@.queue[k2].issue_id && store@.queue[k1].recipient@
            == store@.queue[k2].recipient@) by {
            if k2 < m0.queue.len() {
            } else if k1 < m0.queue.len() {
                // An old entry references an old issue, whose id is below
                // the fresh one.
                assert(crate::store::has_issue(m0.issues, m0.queue[k1].issue_id));
                let w = choose|w: int|
                    0 <= w < m0.issues.len() && (#[trigger] m0.issues[w]).id
                        == m0.queue[k1].issue_id;
                assert(m0.issues[w].id < issue_id);
            } else {
                assert(es[k1 - m0.queue.len()].recipient@ != es[k2
                    - m0.queue.len()].recipient@);
            }
        }
        assert forall|k: int| 0 <= k < store@.queue.len() implies crate::store::has_issue(
            store@.issues,
            (#[trigger] store@.queue[k]).issue_id,
        ) by {
            if k < m0.queue.len() {
                assert(crate::store::has_issue(m0.issues, m0.queue[k].issue_id));
                let w = choose|w: int|
                    0 <= w < m0.issues.len() && (#[trigger] m0.issues[w]).id
                        == m0.queue[k].issue_id;
                assert(store@.issues[w].id == m0.queue[k].issue_id);
            } else {
                assert(store@.issues[store@.issues.len() - 1].id == issue_id);
            }
        }
        assert(store.wf());
    }
    store.complete(user_id, &key, response);
    proof {
        let m0 = old(store)@;
        let placeholder = IdemModel {
            actor_id: user_id,
            key: key@,
            created_at: now,
            response: None,
        };
        let completed = IdemModel {
            actor_id: user_id,
            key: key@,
            created_at: now,
            response: Some(success_response_model()),
        };
        let withp = m0.idempotency.push(placeholder);
        crate::idempotency::lemma_found_at(withp, user_id, key@, m0.idempotency.len() as int);
        assert(withp.update(m0.idempotency.len() as int, completed) =~= m0.idempotency.push(
            completed,
        ));
        assert(final(store)@ =~= publish_next(m0, user_id, *form, now));
    }
    PublishOutcome::Published(out)
}


/// Law: a valid publish request whose (actor, key) pair is fresh creates
/// exactly one newsletter issue and exactly one queue entry per confirmed
/// subscriber present at that moment — each entry fresh, unclaimed, and
/// addressed to a confirmed subscriber — and touches nothing else.
pub proof fn lemma_publish_fresh_key(
    m: StoreModel,
    actor: u128,
    req: NewsletterRequestBody,
    now: i64,
)
    requires
        m.wf(),
        valid_key(req.idempotency_key@),
        lookup_idem(m.idempotency, actor, req.idempotency_key@) is None,
    ensures
        ({
            let next = publish_next(m, actor, req, now);
            &&& next.issues == m.issues.push(fresh_issue(m.next_issue_id, req, now))
            &&& next.queue.len() == m.queue.len() + confirmed_count(m.subscribers)
            &&& next.queue.take(m.queue.len() as int) =~= m.queue
            &&& forall|k: int|
                m.queue.len() <= k < next.queue.len() ==> entry_from_confirmed(
                    m.subscribers,
                    #[trigger] next.queue[k],
                ) && next.queue[k].issue_id == m.next_issue_id && !next.queue[k].claimed
            &&& next.subscribers == m.subscribers
            &&& next.users == m.users
            &&& next.subscription_tokens == m.subscription_tokens
            &&& publish_outcome_spec(m, actor, req) == PublishModel::Published(
                success_response_model(),
            )
        }),
{
    lemma_snapshot_entries(m.subscribers, m.next_issue_id, now);
}

/// Law: two submissions sharing (actor, key) receive byte-identical
/// responses — the first is published, the second replays the very same
/// response — and only the first creates an issue or queue entries.
pub proof fn lemma_duplicate_submission(
    m: StoreModel,
    actor: u128,
    req1: NewsletterRequestBody,
    req2: NewsletterRequestBody,
    t1: i64,
    t2: i64,
)
    requires
        m.wf(),
        req1.idempotency_key@ == req2.idempotency_key@,
        valid_key(req1.idempotency_key@),
        lookup_idem(m.idempotency, actor, req1.idempotency_key@) is None,
    ensures
        ({
            let m1 = publish_next(m, actor, req1, t1);
            &&& publish_outcome_spec(m, actor, req1) == PublishModel::Published(
                success_response_model(),
            )
            &&& publish_outcome_spec(m1, actor, req2) == PublishModel::Replay(
                success_response_model(),
            )
            &&& publish_next(m1, actor, req2, t2) =~= m1
            &&& m1.issues.len() == m.issues.len() + 1
        }),
{
    let key = req1.idempotency_key@;
    let m1 = publish_next(m, actor, req1, t1);
    let completed = IdemModel {
        actor_id: actor,
        key: key,
        created_at: t1,
        response: Some(success_response_model()),
    };
    crate::idempotency::lemma_idem_index(m.idempotency, actor, key);
    crate::idempotency::lemma_found_at(m1.idempotency, actor, key, m.idempotency.len() as int);
    assert(lookup_idem(m1.idempotency, actor, key) == Some(completed));
}

/// Law: while a submission for (actor, key) is still in flight, a
/// concurrent duplicate creates nothing and is told to wait.
pub proof fn lemma_concurrent_duplicate_waits(
    m: StoreModel,
    actor: u128,
    req: NewsletterRequestBody,
    now: i64,
)
    requires
        valid_key(req.idempotency_key@),
        lookup_idem(m.idempotency, actor, req.idempotency_key@) matches Some(rec)
            && rec.response is None,
    ensures
        publish_next(m, actor, req, now) == m,
        publish_outcome_spec(m, actor, req) == PublishModel::InFlight,
{
}

/// Law: once (actor, key) has completed with some response, every later
/// submission of the pair replays that response unchanged and adds no
/// issue and no queue entry, whatever happened in between.
pub proof fn lemma_replay_after_completion(
    m: StoreModel,
    actor: u128,
    req: NewsletterRequestBody,
    now: i64,
    resp: ResponseModel,
)
    requires
        valid_key(req.idempotency_key@),
        lookup_idem(m.idempotency, actor, req.idempotency_key@) matches Some(rec) && rec.response
            == Some(resp),
    ensures
        publish_next(m, actor, req, now) == m,
        publish_outcome_spec(m, actor, req) == PublishModel::Replay(resp),
{
}

/// Law: a subscriber not confirmed at publish time never receives a queue
/// entry for the issue that publish creates, even if the subscriber is
/// confirmed later.
pub proof fn lemma_unconfirmed_not_queued(
    m: StoreModel,
    actor: u128,
    req: NewsletterRequestBody,
    now: i64,
    s: int,
)
    requires
        m.wf(),
        0 <= s < m.subscribers.len(),
        m.subscribers[s].status != SubscriberStatus::Confirmed,
    ensures
        ({
            let next = publish_next(m, actor, req, now);
            forall|k: int|
                0 <= k < next.queue.len() && (#[trigger] next.queue[k]).issue_id
                    == m.next_issue_id ==> next.queue[k].recipient@ != m.subscribers[s].email@
        }),
{
    let next = publish_next(m, actor, req, now);
    let es = snapshot_entries(m.subscribers, m.next_issue_id, now);
    lemma_snapshot_entries(m.subscribers, m.next_issue_id, now);
    assert forall|k: int|
        0 <= k < next.queue.len() && (#[trigger] next.queue[k]).issue_id
            == m.next_issue_id implies next.queue[k].recipient@ != m.subscribers[s].email@ by {
        if k < m.queue.len() && next.queue[k] == m.queue[k] {
            // An entry already present references an existing issue, whose
            // id is below the fresh one: a contradiction.
            assert(crate::store::has_issue(m.issues, m.queue[k].issue_id));
            let w = choose|w: int|
                0 <= w < m.issues.len() && (#[trigger] m.issues[w]).id == m.queue[k].issue_id;
            assert(m.issues[w].id < m.next_issue_id);
            assert(false);
        } else {
            // A fresh entry is addressed to a confirmed subscriber; email
            // uniqueness separates it from the unconfirmed one.
            assert(entry_from_confirmed(m.subscribers, next.queue[k]));
            let j = choose|j: int|
                0 <= j < m.subscribers.len() && (#[trigger] m.subscribers[j]).status
                    == SubscriberStatus::Confirmed && next.queue[k].recipient
                    == m.subscribers[j].email;
            assert(j != s);
            assert(m.subscribers[j].email@ != m.subscribers[s].email@);
        }
    }
}


/// A publish submission preserves the store's well-formedness.
pub proof fn lemma_publish_next_wf(
    m: StoreModel,
    actor: u128,
    req: NewsletterRequestBody,
    now: i64,
)
    requires
        m.wf(),
        m.next_issue_id < u64::MAX,
    ensures
        publish_next(m, actor, req, now).wf(),
{
    let next = publish_next(m, actor, req, now);
    let key = req.idempotency_key@;
    if valid_key(key) && lookup_idem(m.idempotency, actor, key) is None {
        let es = snapshot_entries(m.subscribers, m.next_issue_id, now);
        lemma_snapshot_entries(m.subscribers, m.next_issue_id, now);
        crate::idempotency::lemma_idem_index(m.idempotency, actor, key);
        assert forall|k1: int, k2: int|
            #![trigger next.queue[k1], next.queue[k2]]
            0 <= k1 < k2 < next.queue.len() implies !(next.queue[k1].issue_id
            == next.queue[k2].issue_id && next.queue[k1].recipient@
            == next.queue[k2].recipient@) by {
            if k2 < m.queue.len() {
            } else if k1 < m.queue.len() {
                // An entry already present references an existing issue,
                // whose id is below the fresh one.
                assert(crate::store::has_issue(m.issues, m.queue[k1].issue_id));
                let w = choose|w: int|
                    0 <= w < m.issues.len() && (#[trigger] m.issues[w]).id
                        == m.queue[k1].issue_id;
                assert(m.issues[w].id < m.next_issue_id);
            } else {
                assert(es[k1 - m.queue.len()].recipient@ != es[k2 - m.queue.len()].recipient@);
            }
        }
        assert forall|k: int| 0 <= k < next.queue.len() implies crate::store::has_issue(
            next.issues,
            (#[trigger] next.queue[k]).issue_id,
        ) by {
            if k < m.queue.len() {
                assert(crate::store::has_issue(m.issues, m.queue[k].issue_id));
                let w = choose|w: int|
                    0 <= w < m.issues.len() && (#[trigger] m.issues[w]).id
                        == m.queue[k].issue_id;
                assert(next.issues[w].id == m.queue[k].issue_id);
            } else {
                assert(next.issues[next.issues.len() - 1].id == m.next_issue_id);
            }
        }
    }
}

} // verus!
