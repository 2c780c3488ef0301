//! Confirming a pending subscription from the token that the
//! confirmation email carried.

use vstd::prelude::*;
use crate::store::{
    lemma_lookup_token, lookup_token, Store, StoreModel, SubscriberRecord, SubscriberStatus,
    TokenRecord,
};

verus! {

/// Query parameters of the confirmation link.
#[derive(Debug)]
pub struct Parameters {
    pub subscription_token: String,
}

/// Outcome of a confirmation request.
#[derive(PartialEq, Eq, Structural, Clone, Copy, Debug)]
pub enum ConfirmOutcome {
    /// The token was known; its subscriber is confirmed now.
    Confirmed,
    /// The token is unknown; the caller is not authorized.
    UnknownToken,
}

/// A first token match at index `i` pins down `lookup_token`.
proof fn lemma_token_found_at(toks: Seq<TokenRecord>, token: Seq<char>, i: int)
    requires
        0 <= i < toks.len(),
        toks[i].subscription_token@ == token,
        forall|j: int| 0 <= j < i ==> (#[trigger] toks[j]).subscription_token@ != token,
    ensures
        lookup_token(toks, token) == Some(toks[i].subscriber_id),
    decreases i,
{
    if i > 0 {
        lemma_token_found_at(toks.drop_first(), token, i - 1);
        assert(forall|j: int|
            1 <= j < toks.len() ==> toks.drop_first()[j - 1] == #[trigger] toks[j]);
    }
}

/// The subscriber id the token points at, if the token is known.
#[verifier::loop_isolation(false)]
pub fn get_subscriber_id_from_token(store: &Store, subscription_token: &String) -> (r: Option<
    u128,
>)
    ensures
        r == lookup_token(store@.subscription_tokens, subscription_token@),
{
    let n = store.subscription_tokens.len();
    let mut i: usize = 0;
    while i < n
        invariant
            0 <= i <= n,
            forall|j: int|
                0 <= j < i ==> (#[trigger] store@.subscription_tokens[j]).subscription_token@
                    != subscription_token@,
        decreases n - i,
    {
        let t = &store.subscription_tokens[i];
        if t.subscription_token == *subscription_token {
            proof {
                lemma_token_found_at(store@.subscription_tokens, subscription_token@, i as int);
            }
            return Some(t.subscriber_id);
        }
        i = i + 1;
    }
    proof {
        lemma_lookup_token(store@.subscription_tokens, subscription_token@);
    }
    None
}

/// Index of the first subscriber with the given id, or -1.
pub open spec fn subscriber_index(subs: Seq<SubscriberRecord>, id: u128) -> int
    decreases subs.len(),
{
    if subs.len() == 0 {
        -1
    } else if subs[0].id == id {
        0int
    } else {
        let r = subscriber_index(subs.drop_first(), id);
        if r == -1 {
            -1
        } else {
            r + 1
        }
    }
}

/// The index returned by `subscriber_index` is the first row with the
/// id, and -1 means there is none.
pub proof fn lemma_subscriber_index(subs: Seq<SubscriberRecord>, id: u128)
    ensures
        ({
            let i = subscriber_index(subs, id);
            &&& i == -1 ==> forall|j: int| 0 <= j < subs.len() ==> (#[trigger] subs[j]).id != id
            &&& i != -1 ==> 0 <= i < subs.len() && subs[i].id == id && forall|j: int|
                0 <= j < i ==> (#[trigger] subs[j]).id != id
        }),
    decreases subs.len(),
{
    if subs.len() > 0 && subs[0].id != id {
        lemma_subscriber_index(subs.drop_first(), id);
        assert(forall|j: int|
            1 <= j < subs.len() ==> subs.drop_first()[j - 1] == #[trigger] subs[j]);
    }
}

/// State after confirming a subscriber: the row with the id, if any, has
/// its status set to confirmed; an unknown id changes nothing.
pub open spec fn confirm_subscriber_next(m: StoreModel, id: u128) -> StoreModel {
    let i = subscriber_index(m.subscribers, id);
    if i == -1 {
        m
    } else {
        StoreModel {
            subscribers: m.subscribers.update(
                i,
                SubscriberRecord { status: SubscriberStatus::Confirmed, ..m.subscribers[i] },
            ),
            ..m
        }
    }
}

/// Marks the subscriber with the given id as confirmed. An unknown id
/// is no error: it is an update of zero rows.
#[verifier::loop_isolation(false)]
pub fn confirm_subscriber(store: &mut Store, subscriber_id: u128)
    requires
        old(store).wf(),
    ensures
        final(store).wf(),
        final(store)@ == confirm_subscriber_next(old(store)@, subscriber_id),
{
    proof {
        lemma_subscriber_index(store@.subscribers, subscriber_id);
    }
    let n = store.subscribers.len();
    let mut i: usize = 0;
    while i < n
        invariant
            0 <= i <= n,
            *store == *old(store),
            forall|j: int| 0 <= j < i ==> (#[trigger] store@.subscribers[j]).id != subscriber_id,
        decreases n - i,
    {
        let found = store.subscribers[i].id == subscriber_id;
        if found {
            let mut rec = store.subscribers.remove(i);
            rec.status = SubscriberStatus::Confirmed;
            store.subscribers.insert(i, rec);
            proof {
                assert(store.subscribers@ =~= old(store)@.subscribers.update(
                    i as int,
                    SubscriberRecord {
                        status: SubscriberStatus::Confirmed,
                        ..old(store)@.subscribers[i as int]
                    },
                ));
                assert(final(store)@ =~= confirm_subscriber_next(old(store)@, subscriber_id));
            }
            return ;
        }
        i = i + 1;
    }
}

/// Serves one confirmation request: an unknown token is rejected as
/// unauthorized; a known one confirms its subscriber.
pub fn confirm(store: &mut Store, parameters: &Parameters) -> (r: ConfirmOutcome)
    requires
        old(store).wf(),
    ensures
        final(store).wf(),
        ({
            let t = lookup_token(old(store)@.subscription_tokens, parameters.subscription_token@);
            &&& t is None ==> (r == ConfirmOutcome::UnknownToken && final(store)@ == old(store)@)
            &&& t matches Some(id) ==> (r == ConfirmOutcome::Confirmed && final(store)@
                == confirm_subscriber_next(old(store)@, id))
        }),
{
    let id = get_subscriber_id_from_token(store, &parameters.subscription_token);
    match id {
        Some(subscriber_id) => {
            confirm_subscriber(store, subscriber_id);
            ConfirmOutcome::Confirmed
        },
        None => ConfirmOutcome::UnknownToken,
    }
}

} // verus!
