//! The subscription path: validate the form, insert the subscriber as
//! pending, store a fresh confirmation token, and prepare the
//! confirmation email — all or nothing: a failure must leave no
//! partial state behind.

use vstd::prelude::*;
use vstd::string::StringExecFns;
use rand::{distributions::Alphanumeric, thread_rng, Rng};
use crate::domain::{valid_email_chars, valid_name_chars, FormData, SubscriptionRequest};
use crate::email_client::EmailRequest;
use crate::store::{
    has_subscriber_email, has_subscriber_id, Store, StoreModel, SubscriberRecord,
    SubscriberStatus, TokenRecord,
};
use crate::ApplicationBaseUrl;

verus! {

/// A database failure while storing a confirmation token.
#[derive(Debug)]
pub struct StoreTokenError;

/// Everything that can go wrong on the subscription path.
#[derive(Debug)]
pub enum SubscribeError {
    /// The form's name or email is structurally invalid.
    ValidationError(String),
    /// The subscriber row could not be inserted (the email or the fresh
    /// id is already taken).
    InsertSubscriberError,
    /// The confirmation token could not be stored.
    StoreTokenError(StoreTokenError),
}

impl SubscribeError {
    /// The HTTP status this error surfaces as: a validation failure is
    /// the caller's fault, everything else is the server's.
    pub fn status_code(&self) -> (c: u16)
        ensures
            c == (match self {
                SubscribeError::ValidationError(_) => 400u16,
                SubscribeError::InsertSubscriberError => 500u16,
                SubscribeError::StoreTokenError(_) => 500u16,
            }),
    {
        match self {
            SubscribeError::ValidationError(_) => 400,
            SubscribeError::InsertSubscriberError => 500,
            SubscribeError::StoreTokenError(_) => 500,
        }
    }
}

/// A character a subscription token may consist of.
pub open spec fn is_alphanumeric_char(c: char) -> bool {
    ||| 'a' <= c <= 'z'
    ||| 'A' <= c <= 'Z'
    ||| '0' <= c <= '9'
}

/// Relies on rand's `thread_rng` and the `Alphanumeric` distribution: 25
/// characters drawn from a-z, A-Z and 0-9. The draw is random, so nothing
/// more is promised of the value.
#[verifier::external_body]
fn generate_subscription_token() -> (r: String)
    ensures
        r@.len() == 25,
        forall|i: int| 0 <= i < r@.len() ==> is_alphanumeric_char(#[trigger] r@[i]),
{
    let mut rng = thread_rng();

    std::iter::repeat_with(|| rng.sample(Alphanumeric))
        .map(char::from)
        .take(25)
        .collect()
}

/// Relies on uuid's `Uuid::new_v4`, read out as its 128-bit value. The id
/// is random, so nothing is promised of it.
#[verifier::external_body]
pub(crate) fn generate_id() -> u128 {
    uuid::Uuid::new_v4().as_u128()
}

/// Relies on chrono's `Utc::now`, read out as milliseconds since the
/// epoch. The clock decides the value, so nothing is promised of it.
#[verifier::external_body]
pub(crate) fn now_millis() -> i64 {
    chrono::Utc::now().timestamp_millis()
}

/// Inserts a validated subscriber under the given id, pending
/// confirmation. Fails — leaving the store untouched — exactly when the
/// email or the id is already taken.
#[verifier::loop_isolation(false)]
pub fn insert_subscriber_with_id(
    store: &mut Store,
    req: &SubscriptionRequest,
    id: u128,
    now: i64,
) -> (r: Result<(), SubscribeError>)
    requires
        old(store).wf(),
    ensures
        final(store).wf(),
        ({
            let taken = has_subscriber_email(old(store)@.subscribers, req.email@)
                || has_subscriber_id(old(store)@.subscribers, id);
            &&& taken ==> (r matches Err(SubscribeError::InsertSubscriberError) && final(store)@
                == old(store)@)
            &&& !taken ==> (r is Ok && final(store)@ == (StoreModel {
                subscribers: old(store)@.subscribers.push(
                    SubscriberRecord {
                        id,
                        email: req.email.0,
                        name: req.name.0,
                        subscribed_at: now,
                        status: SubscriberStatus::PendingConfirmation,
                    },
                ),
                ..old(store)@
            }))
        }),
{
    let n = store.subscribers.len();
    let mut i: usize = 0;
    while i < n
        invariant
            0 <= i <= n,
            *store == *old(store),
            forall|j: int|
                0 <= j < i ==> (#[trigger] store@.subscribers[j]).email@ != req.email@
                    && store@.subscribers[j].id != id,
        decreases n - i,
    {
        let s = &store.subscribers[i];
        if s.id == id || s.email == req.email.0 {
            return Err(SubscribeError::InsertSubscriberError);
        }
        i = i + 1;
    }
    let record = SubscriberRecord {
        id,
        email: req.email.0.clone(),
        name: req.name.0.clone(),
        subscribed_at: now,
        status: SubscriberStatus::PendingConfirmation,
    };
    store.subscribers.push(record);
    proof {
        assert(final(store)@ =~= (StoreModel {
            subscribers: old(store)@.subscribers.push(
                SubscriberRecord {
                    id,
                    email: req.email.0,
                    name: req.name.0,
                    subscribed_at: now,
                    status: SubscriberStatus::PendingConfirmation,
                },
            ),
            ..old(store)@
        }));
    }
    Ok(())
}

/// Inserts the subscriber under a fresh random id. Fails — leaving the
/// store untouched — when the email is already subscribed, or in the
/// unlikely event that the random id collides.
pub fn insert_subscriber(store: &mut Store, req: &SubscriptionRequest, now: i64) -> (r: Result<
    u128,
    SubscribeError,
>)
    requires
        old(store).wf(),
    ensures
        final(store).wf(),
        has_subscriber_email(old(store)@.subscribers, req.email@) ==> r is Err,
        r matches Err(e) ==> (e matches SubscribeError::InsertSubscriberError && final(store)@
            == old(store)@),
        r matches Ok(id) ==> (!has_subscriber_email(old(store)@.subscribers, req.email@)
            && !has_subscriber_id(old(store)@.subscribers, id) && final(store)@ == (StoreModel {
            subscribers: old(store)@.subscribers.push(
                SubscriberRecord {
                    id,
                    email: req.email.0,
                    name: req.name.0,
                    subscribed_at: now,
                    status: SubscriberStatus::PendingConfirmation,
                },
            ),
            ..old(store)@
        })),
{
    let id = generate_id();
    match insert_subscriber_with_id(store, req, id, now) {
        Ok(_) => Ok(id),
        Err(e) => Err(e),
    }
}

/// Stores a confirmation token for a subscriber. Fails — leaving the
/// store untouched — exactly when the token is already taken.
#[verifier::loop_isolation(false)]
pub fn store_token(store: &mut Store, subscriber_id: u128, subscription_token: &String) -> (r: Result<
    (),
    StoreTokenError,
>)
    requires
        old(store).wf(),
    ensures
        final(store).wf(),
        ({
            let taken = crate::store::lookup_token(
                old(store)@.subscription_tokens,
                subscription_token@,
            ) is Some;
            &&& taken ==> (r is Err && final(store)@ == old(store)@)
            &&& !taken ==> (r is Ok && final(store)@ == (StoreModel {
                subscription_tokens: old(store)@.subscription_tokens.push(
                    TokenRecord { subscription_token: *subscription_token, subscriber_id },
                ),
                ..old(store)@
            }))
        }),
{
    proof {
        crate::store::lemma_lookup_token(old(store)@.subscription_tokens, subscription_token@);
    }
    let n = store.subscription_tokens.len();
    let mut i: usize = 0;
    while i < n
        invariant
            0 <= i <= n,
            *store == *old(store),
            forall|j: int|
                0 <= j < i ==> (#[trigger] store@.subscription_tokens[j]).subscription_token@
                    != subscription_token@,
        decreases n - i,
    {
        let t = &store.subscription_tokens[i];
        if t.subscription_token == *subscription_token {
            return Err(StoreTokenError);
        }
        i = i + 1;
    }
    let record = TokenRecord { subscription_token: subscription_token.clone(), subscriber_id };
    store.subscription_tokens.push(record);
    proof {
        assert(final(store)@ =~= (StoreModel {
            subscription_tokens: old(store)@.subscription_tokens.push(
                TokenRecord { subscription_token: *subscription_token, subscriber_id },
            ),
            ..old(store)@
        }));
    }
    Ok(())
}


/// The confirmation link a new subscriber receives.
pub open spec fn confirmation_link(base_url: Seq<char>, token: Seq<char>) -> Seq<char> {
    base_url + "/subscriptions/confirm?subscription_token="@ + token
}

/// HTML body of the confirmation email.
pub open spec fn confirmation_html(link: Seq<char>) -> Seq<char> {
    "Welcome to our newsletter! <br />Click <a href=\""@ + link
        + "\">here</a> to confirm your subscriptions."@
}

/// Plain-text body of the confirmation email.
pub open spec fn confirmation_text(link: Seq<char>) -> Seq<char> {
    "Welcome to our newsletter!\nVisit "@ + link + " to confirm your subscription."@
}

/// Builds the confirmation email for a new subscriber: their address, a
/// "Welcome!" subject, and both bodies around the confirmation link.
pub fn confirmation_email(
    req: &SubscriptionRequest,
    base_url: &str,
    subscription_token: &str,
) -> (r: EmailRequest)
    ensures
        r.recipient@ == req.email@,
        r.subject@ == "Welcome!"@,
        r.html_body@ == confirmation_html(confirmation_link(base_url@, subscription_token@)),
        r.text_body@ == confirmation_text(confirmation_link(base_url@, subscription_token@)),
{
    let mut link = String::from_str(base_url);
    link.append("/subscriptions/confirm?subscription_token=");
    link.append(subscription_token);
    let mut html_body = String::from_str("Welcome to our newsletter! <br />Click <a href=\"");
    html_body.append(link.as_str());
    html_body.append("\">here</a> to confirm your subscriptions.");
    let mut text_body = String::from_str("Welcome to our newsletter!\nVisit ");
    text_body.append(link.as_str());
    text_body.append(" to confirm your subscription.");
    let r = EmailRequest {
        recipient: req.email.0.clone(),
        subject: String::from_str("Welcome!"),
        html_body,
        text_body,
    };
    proof {
        assert(r.html_body@ =~= confirmation_html(
            confirmation_link(base_url@, subscription_token@),
        ));
        assert(r.text_body@ =~= confirmation_text(
            confirmation_link(base_url@, subscription_token@),
        ));
    }
    r
}

/// An accepted subscription: the stored ids plus the confirmation email
/// the caller must dispatch.
#[derive(Debug)]
pub struct SubscribeAccepted {
    pub subscriber_id: u128,
    pub subscription_token: String,
    pub confirmation_email: EmailRequest,
}

/// Serves one subscription form.
///
/// Validates the form, inserts the subscriber as pending under a fresh
/// id, stores a fresh 25-character confirmation token, and hands back the
/// confirmation email for the transport. On every failure the store is
/// left exactly as it was, as a single enclosing transaction would
/// leave it.
pub fn subscribe(store: &mut Store, form: FormData, base_url: &ApplicationBaseUrl) -> (r: Result<
    SubscribeAccepted,
    SubscribeError,
>)
    requires
        old(store).wf(),
    ensures
        final(store).wf(),
        !(valid_name_chars(form.name@) && valid_email_chars(form.email@)) ==> (r matches Err(e)
            && e matches SubscribeError::ValidationError(_)),
        valid_name_chars(form.name@) && valid_email_chars(form.email@)
            && has_subscriber_email(old(store)@.subscribers, form.email@) ==> (r matches Err(e)
            && e matches SubscribeError::InsertSubscriberError),
        r is Err ==> final(store)@ == old(store)@,
        r matches Ok(acc) ==> ({
            let subs1 = final(store)@.subscribers;
            let toks1 = final(store)@.subscription_tokens;
            &&& valid_name_chars(form.name@) && valid_email_chars(form.email@)
            &&& !has_subscriber_email(old(store)@.subscribers, form.email@)
            &&& subs1.len() == old(store)@.subscribers.len() + 1
            &&& subs1.drop_last() == old(store)@.subscribers
            &&& subs1.last().id == acc.subscriber_id
            &&& subs1.last().email == form.email
            &&& subs1.last().name == form.name
            &&& subs1.last().status == SubscriberStatus::PendingConfirmation
            &&& toks1.len() == old(store)@.subscription_tokens.len() + 1
            &&& toks1.drop_last() == old(store)@.subscription_tokens
            &&& toks1.last().subscription_token == acc.subscription_token
            &&& toks1.last().subscriber_id == acc.subscriber_id
            &&& final(store)@.users == old(store)@.users
            &&& final(store)@.idempotency == old(store)@.idempotency
            &&& final(store)@.issues == old(store)@.issues
            &&& final(store)@.queue == old(store)@.queue
            &&& final(store)@.next_issue_id == old(store)@.next_issue_id
            &&& acc.subscription_token@.len() == 25
            &&& forall|i: int|
                0 <= i < acc.subscription_token@.len() ==> is_alphanumeric_char(
                    #[trigger] acc.subscription_token@[i],
                )
            &&& acc.confirmation_email.recipient@ == form.email@
            &&& acc.confirmation_email.subject@ == "Welcome!"@
            &&& acc.confirmation_email.html_body@ == confirmation_html(
                confirmation_link(base_url.0@, acc.subscription_token@),
            )
            &&& acc.confirmation_email.text_body@ == confirmation_text(
                confirmation_link(base_url.0@, acc.subscription_token@),
            )
        }),
{
    let req = match SubscriptionRequest::try_from(form) {
        Ok(r) => r,
        Err(e) => {
            return Err(SubscribeError::ValidationError(e));
        },
    };
    let now = now_millis();
    let id = generate_id();
    match insert_subscriber_with_id(store, &req, id, now) {
        Ok(_) => {},
        Err(e) => {
            return Err(e);
        },
    }
    let subscription_token = generate_subscription_token();
    match store_token(store, id, &subscription_token) {
        Ok(_) => {},
        Err(e) => {
            // Both inserts form one transaction: undo the subscriber row
            // so a failure leaves no partial state behind.
            store.subscribers.pop();
            proof {
                assert(final(store)@ =~= old(store)@);
            }
            return Err(SubscribeError::StoreTokenError(e));
        },
    }
    let confirmation_email = confirmation_email(&req, base_url.0.as_str(),
        subscription_token.as_str());
    proof {
        assert(final(store)@.subscribers.drop_last() =~= old(store)@.subscribers);
        assert(final(store)@.subscription_tokens.drop_last() =~= old(
            store,
        )@.subscription_tokens);
    }
    Ok(SubscribeAccepted { subscriber_id: id, subscription_token, confirmation_email })
}

} // verus!
