//! The durable state shared by the request path and the delivery worker:
//! subscribers, confirmation tokens, users, the idempotency store, the
//! newsletter issues, and the delivery queue.
//!
//! The struct models the relational schema row for row; its well-formedness
//! predicate states the schema's key constraints. All mutation goes through
//! the verified operations of the other modules.

use vstd::prelude::*;
use crate::idempotency::{IdemModel, IdempotencyRecord};

verus! {

/// Lifecycle state of a subscription.
#[derive(PartialEq, Eq, Structural, Clone, Copy, Debug)]
pub enum SubscriberStatus {
    PendingConfirmation,
    Confirmed,
}

/// One row of the subscriptions table.
#[derive(Debug)]
pub struct SubscriberRecord {
    pub id: u128,
    pub email: String,
    pub name: String,
    pub subscribed_at: i64,
    pub status: SubscriberStatus,
}

/// One row of the subscription tokens table.
#[derive(Debug)]
pub struct TokenRecord {
    pub subscription_token: String,
    pub subscriber_id: u128,
}

/// One row of the users table.
#[derive(Debug)]
pub struct UserRecord {
    pub user_id: u128,
    pub username: String,
    pub password: String,
}

/// One published newsletter issue. Created exactly once per distinct
/// idempotency key that reaches execution; never mutated, never deleted.
#[derive(Debug)]
pub struct NewsletterIssue {
    pub id: u64,
    pub title: String,
    pub text_content: String,
    pub html_content: String,
    pub published_at: i64,
}

/// One (issue, recipient) delivery obligation. `claimed` models the row
/// lock a worker holds while a send is in progress.
#[derive(Debug)]
pub struct QueueEntry {
    pub issue_id: u64,
    pub recipient: String,
    pub created_at: i64,
    pub retry_count: u64,
    pub claimed: bool,
}

/// Mathematical shape of the whole store.
#[verifier::ext_equal]
pub ghost struct StoreModel {
    pub subscribers: Seq<SubscriberRecord>,
    pub subscription_tokens: Seq<TokenRecord>,
    pub users: Seq<UserRecord>,
    pub idempotency: Seq<IdemModel>,
    pub issues: Seq<NewsletterIssue>,
    pub queue: Seq<QueueEntry>,
    pub next_issue_id: u64,
}

/// The durable state, table by table.
#[derive(Debug)]
pub struct Store {
    pub subscribers: Vec<SubscriberRecord>,
    pub subscription_tokens: Vec<TokenRecord>,
    pub users: Vec<UserRecord>,
    pub idempotency: Vec<IdempotencyRecord>,
    pub issues: Vec<NewsletterIssue>,
    pub queue: Vec<QueueEntry>,
    pub next_issue_id: u64,
}

impl View for Store {
    type V = StoreModel;

    open spec fn view(&self) -> StoreModel {
        StoreModel {
            subscribers: self.subscribers@,
            subscription_tokens: self.subscription_tokens@,
            users: self.users@,
            idempotency: self.idempotency@.map_values(|r: IdempotencyRecord| r@),
            issues: self.issues@,
            queue: self.queue@,
            next_issue_id: self.next_issue_id,
        }
    }
}

/// At most one record per (actor, key): the primary key of the
/// idempotency table.
pub open spec fn unique_idem_keys(recs: Seq<IdemModel>) -> bool {
    forall|i: int, j: int|
        #![trigger recs[i], recs[j]]
        0 <= i < j < recs.len() ==> !(recs[i].actor_id == recs[j].actor_id && recs[i].key
            == recs[j].key)
}

/// Issue ids are distinct.
pub open spec fn unique_issue_ids(issues: Seq<NewsletterIssue>) -> bool {
    forall|i: int, j: int|
        #![trigger issues[i], issues[j]]
        0 <= i < j < issues.len() ==> issues[i].id != issues[j].id
}

/// Every issue id is below the id counter.
pub open spec fn issue_ids_below(issues: Seq<NewsletterIssue>, bound: u64) -> bool {
    forall|i: int| 0 <= i < issues.len() ==> (#[trigger] issues[i]).id < bound
}

/// At most one entry per (issue, recipient): the primary key of the
/// delivery queue.
pub open spec fn unique_queue_keys(queue: Seq<QueueEntry>) -> bool {
    forall|i: int, j: int|
        #![trigger queue[i], queue[j]]
        0 <= i < j < queue.len() ==> !(queue[i].issue_id == queue[j].issue_id
            && queue[i].recipient@ == queue[j].recipient@)
}

/// Some issue carries this id.
pub open spec fn has_issue(issues: Seq<NewsletterIssue>, id: u64) -> bool {
    exists|j: int| 0 <= j < issues.len() && (#[trigger] issues[j]).id == id
}

/// Every queue entry references an existing issue.
pub open spec fn queue_refs_issues(queue: Seq<QueueEntry>, issues: Seq<NewsletterIssue>) -> bool {
    forall|i: int| 0 <= i < queue.len() ==> has_issue(issues, (#[trigger] queue[i]).issue_id)
}

/// Subscriber ids and email addresses are distinct.
pub open spec fn unique_subscribers(subs: Seq<SubscriberRecord>) -> bool {
    forall|i: int, j: int|
        #![trigger subs[i], subs[j]]
        0 <= i < j < subs.len() ==> subs[i].id != subs[j].id && subs[i].email@ != subs[j].email@
}

/// Subscription tokens are distinct.
pub open spec fn unique_tokens(toks: Seq<TokenRecord>) -> bool {
    forall|i: int, j: int|
        #![trigger toks[i], toks[j]]
        0 <= i < j < toks.len() ==> toks[i].subscription_token@ != toks[j].subscription_token@
}

/// User ids and usernames are distinct.
pub open spec fn unique_users(users: Seq<UserRecord>) -> bool {
    forall|i: int, j: int|
        #![trigger users[i], users[j]]
        0 <= i < j < users.len() ==> users[i].user_id != users[j].user_id && users[i].username@
            != users[j].username@
}

impl StoreModel {
    /// The schema's key constraints, all together.
    pub open spec fn wf(self) -> bool {
        &&& unique_idem_keys(self.idempotency)
        &&& unique_issue_ids(self.issues)
        &&& issue_ids_below(self.issues, self.next_issue_id)
        &&& unique_queue_keys(self.queue)
        &&& queue_refs_issues(self.queue, self.issues)
        &&& unique_subscribers(self.subscribers)
        &&& unique_tokens(self.subscription_tokens)
        &&& unique_users(self.users)
    }
}

/// The store with every table empty.
pub open spec fn empty_store() -> StoreModel {
    StoreModel {
        subscribers: Seq::empty(),
        subscription_tokens: Seq::empty(),
        users: Seq::empty(),
        idempotency: Seq::empty(),
        issues: Seq::empty(),
        queue: Seq::empty(),
        next_issue_id: 1,
    }
}

impl Store {
    /// The schema's key constraints hold of the current state.
    pub open spec fn wf(self) -> bool {
        self@.wf()
    }

    /// A fresh, empty store.
    pub fn new() -> (s: Store)
        ensures
            s@ == empty_store(),
            s.wf(),
    {
        let s = Store {
            subscribers: Vec::new(),
            subscription_tokens: Vec::new(),
            users: Vec::new(),
            idempotency: Vec::new(),
            issues: Vec::new(),
            queue: Vec::new(),
            next_issue_id: 1,
        };
        proof {
            assert(s@ =~= empty_store());
        }
        s
    }
}

/// The issue with the given id, if any. Under well-formedness there is at
/// most one.
pub open spec fn lookup_issue(issues: Seq<NewsletterIssue>, id: u64) -> Option<NewsletterIssue>
    decreases issues.len(),
{
    if issues.len() == 0 {
        None
    } else if issues[0].id == id {
        Some(issues[0])
    } else {
        lookup_issue(issues.drop_first(), id)
    }
}

/// Some subscriber carries this id.
pub open spec fn has_subscriber_id(subs: Seq<SubscriberRecord>, id: u128) -> bool {
    exists|j: int| 0 <= j < subs.len() && (#[trigger] subs[j]).id == id
}

/// Some subscriber carries this email address.
pub open spec fn has_subscriber_email(subs: Seq<SubscriberRecord>, email: Seq<char>) -> bool {
    exists|j: int| 0 <= j < subs.len() && (#[trigger] subs[j]).email@ == email
}

/// The subscriber id a confirmation token points at, if the token is known.
pub open spec fn lookup_token(toks: Seq<TokenRecord>, token: Seq<char>) -> Option<u128>
    decreases toks.len(),
{
    if toks.len() == 0 {
        None
    } else if toks[0].subscription_token@ == token {
        Some(toks[0].subscriber_id)
    } else {
        lookup_token(toks.drop_first(), token)
    }
}

/// Some user carries this username.
pub open spec fn has_username(users: Seq<UserRecord>, username: Seq<char>) -> bool {
    exists|j: int| 0 <= j < users.len() && (#[trigger] users[j]).username@ == username
}

/// Some user carries this id.
pub open spec fn has_user_id(users: Seq<UserRecord>, id: u128) -> bool {
    exists|j: int| 0 <= j < users.len() && (#[trigger] users[j]).user_id == id
}

/// The id of the user with these credentials, if both match one row.
pub open spec fn lookup_credentials(
    users: Seq<UserRecord>,
    username: Seq<char>,
    password: Seq<char>,
) -> Option<u128>
    decreases users.len(),
{
    if users.len() == 0 {
        None
    } else if users[0].username@ == username && users[0].password@ == password {
        Some(users[0].user_id)
    } else {
        lookup_credentials(users.drop_first(), username, password)
    }
}

/// The username of the user with this id, if the id is known.
pub open spec fn lookup_username(users: Seq<UserRecord>, id: u128) -> Option<Seq<char>>
    decreases users.len(),
{
    if users.len() == 0 {
        None
    } else if users[0].user_id == id {
        Some(users[0].username@)
    } else {
        lookup_username(users.drop_first(), id)
    }
}


/// `lookup_token` misses exactly when no record carries the token, and a
/// hit returns the subscriber id of a record that carries it.
pub proof fn lemma_lookup_token(toks: Seq<TokenRecord>, token: Seq<char>)
    ensures
        (lookup_token(toks, token) is None) <==> (forall|j: int|
            0 <= j < toks.len() ==> (#[trigger] toks[j]).subscription_token@ != token),
        lookup_token(toks, token) matches Some(id) ==> exists|j: int|
            0 <= j < toks.len() && (#[trigger] toks[j]).subscription_token@ == token
                && toks[j].subscriber_id == id,
    decreases toks.len(),
{
    if toks.len() > 0 && toks[0].subscription_token@ != token {
        lemma_lookup_token(toks.drop_first(), token);
        assert(forall|j: int|
            1 <= j < toks.len() ==> toks.drop_first()[j - 1] == #[trigger] toks[j]);
    }
}

/// `lookup_credentials` misses exactly when no user row matches both the
/// username and the password, and a hit returns such a row's id.
pub proof fn lemma_lookup_credentials(
    users: Seq<UserRecord>,
    username: Seq<char>,
    password: Seq<char>,
)
    ensures
        (lookup_credentials(users, username, password) is None) <==> (forall|j: int|
            0 <= j < users.len() ==> !((#[trigger] users[j]).username@ == username
                && users[j].password@ == password)),
        lookup_credentials(users, username, password) matches Some(id) ==> exists|j: int|
            0 <= j < users.len() && (#[trigger] users[j]).username@ == username
                && users[j].password@ == password && users[j].user_id == id,
    decreases users.len(),
{
    if users.len() > 0 && !(users[0].username@ == username && users[0].password@ == password) {
        lemma_lookup_credentials(users.drop_first(), username, password);
        assert(forall|j: int|
            1 <= j < users.len() ==> users.drop_first()[j - 1] == #[trigger] users[j]);
    }
}

/// `lookup_username` misses exactly when no user row carries the id, and
/// a hit returns the username of a row that does.
pub proof fn lemma_lookup_username(users: Seq<UserRecord>, id: u128)
    ensures
        (lookup_username(users, id) is None) <==> (forall|j: int|
            0 <= j < users.len() ==> (#[trigger] users[j]).user_id != id),
        lookup_username(users, id) matches Some(name) ==> exists|j: int|
            0 <= j < users.len() && (#[trigger] users[j]).user_id == id && users[j].username@
                == name,
    decreases users.len(),
{
    if users.len() > 0 && users[0].user_id != id {
        lemma_lookup_username(users.drop_first(), id);
        assert(forall|j: int|
            1 <= j < users.len() ==> users.drop_first()[j - 1] == #[trigger] users[j]);
    }
}

} // verus!
