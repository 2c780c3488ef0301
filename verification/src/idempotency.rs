//! Idempotency layer: client-supplied keys, stored HTTP responses, and the
//! two-phase execution records that make the publish endpoint safe to retry.
//!
//! A record is inserted as a placeholder when processing starts (claiming the
//! `(actor, key)` pair) and completed with the response once the side effects
//! have committed; a later submission of the same pair replays that response
//! byte for byte.

use vstd::prelude::*;
use vstd::utf8::encode_utf8;
use crate::store::{Store, StoreModel};

verus! {

/// Longest accepted idempotency key, in bytes.
pub const MAX_KEY_LEN: usize = 50;

/// A key is well-formed when it is non-empty and length-bounded.
pub open spec fn valid_key(s: Seq<char>) -> bool {
    1 <= encode_utf8(s).len() <= MAX_KEY_LEN
}

/// An opaque, client-supplied idempotency key, validated on construction.
/// The pair (actor id, key) identifies one logical publish request.
#[derive(Clone, Debug)]
pub struct IdempotencyKey(pub String);

impl View for IdempotencyKey {
    type V = Seq<char>;

    open spec fn view(&self) -> Seq<char> {
        self.0@
    }
}

impl IdempotencyKey {
    /// The held key is well-formed.
    pub open spec fn wf(self) -> bool {
        valid_key(self.0@)
    }

    /// Accepts `s` exactly when it is a well-formed key.
    pub fn try_from(s: String) -> (r: Result<IdempotencyKey, String>)
        ensures
            valid_key(s@) ==> (r matches Ok(k) && k.0 == s),
            !valid_key(s@) ==> r is Err,
            r matches Ok(k) ==> k.wf(),
    {
        let n: usize = s.as_str().as_bytes().len();
        if 1 <= n && n <= MAX_KEY_LEN {
            Ok(IdempotencyKey(s))
        } else {
            Err(s.concat(" is not a valid idempotency key."))
        }
    }

    /// Read access to the underlying key.
    pub fn as_str(&self) -> (r: &str)
        ensures
            r@ == self@,
    {
        self.0.as_str()
    }
}

/// An HTTP response in storable form: status code, ordered header pairs,
/// and the body bytes.
#[derive(Debug)]
pub struct StoredResponse {
    pub status: u16,
    pub headers: Vec<(String, String)>,
    pub body: Vec<u8>,
}

/// Mathematical shape of a stored response.
#[verifier::ext_equal]
pub ghost struct ResponseModel {
    pub status: u16,
    pub headers: Seq<(Seq<char>, Seq<char>)>,
    pub body: Seq<u8>,
}

impl View for StoredResponse {
    type V = ResponseModel;

    open spec fn view(&self) -> ResponseModel {
        ResponseModel {
            status: self.status,
            headers: self.headers@.map_values(|p: (String, String)| (p.0@, p.1@)),
            body: self.body@,
        }
    }
}

impl StoredResponse {
    /// An exact copy: same status, same headers, same body bytes.
    pub fn duplicate(&self) -> (r: StoredResponse)
        ensures
            r@ == self@,
    {
        let mut headers: Vec<(String, String)> = Vec::new();
        let mut i: usize = 0;
        while i < self.headers.len()
            invariant
                0 <= i <= self.headers.len(),
                headers@.len() == i,
                forall|j: int|
                    #![trigger headers@[j]]
                    0 <= j < i ==> headers@[j].0@ == self.headers@[j].0@ && headers@[j].1@
                        == self.headers@[j].1@,
            decreases self.headers.len() - i,
        {
            let name = self.headers[i].0.clone();
            let value = self.headers[i].1.clone();
            headers.push((name, value));
            i = i + 1;
        }
        let mut body: Vec<u8> = Vec::new();
        let mut k: usize = 0;
        while k < self.body.len()
            invariant
                0 <= k <= self.body.len(),
                body@ == self.body@.take(k as int),
            decreases self.body.len() - k,
        {
            body.push(self.body[k]);
            k = k + 1;
        }
        proof {
            assert(self.body@.take(self.body@.len() as int) =~= self.body@);
        }
        let r = StoredResponse { status: self.status, headers, body };
        proof {
            assert(r@.headers =~= self@.headers);
            assert(r@ =~= self@);
        }
        r
    }
}

/// One row of the idempotency store, keyed by (actor id, key). A record
/// without a response is a placeholder: the request is in flight.
#[derive(Debug)]
pub struct IdempotencyRecord {
    pub actor_id: u128,
    pub key: String,
    pub created_at: i64,
    pub response: Option<StoredResponse>,
}

/// Mathematical shape of an idempotency record.
#[verifier::ext_equal]
pub ghost struct IdemModel {
    pub actor_id: u128,
    pub key: Seq<char>,
    pub created_at: i64,
    pub response: Option<ResponseModel>,
}

impl View for IdempotencyRecord {
    type V = IdemModel;

    open spec fn view(&self) -> IdemModel {
        IdemModel {
            actor_id: self.actor_id,
            key: self.key@,
            created_at: self.created_at,
            response: match self.response {
                Some(r) => Some(r@),
                None => None,
            },
        }
    }
}

/// Whether a record belongs to the (actor, key) pair.
pub open spec fn matches_idem(r: IdemModel, actor: u128, key: Seq<char>) -> bool {
    r.actor_id == actor && r.key == key
}

/// Index of the first record for (actor, key), or -1 when there is none.
pub open spec fn idem_index(recs: Seq<IdemModel>, actor: u128, key: Seq<char>) -> int
    decreases recs.len(),
{
    if recs.len() == 0 {
        -1
    } else if matches_idem(recs[0], actor, key) {
        0int
    } else {
        let r = idem_index(recs.drop_first(), actor, key);
        if r == -1 {
            -1
        } else {
            r + 1
        }
    }
}

/// The index returned by `idem_index` is the first match, and -1 means
/// there is no match at all.
pub proof fn lemma_idem_index(recs: Seq<IdemModel>, actor: u128, key: Seq<char>)
    ensures
        ({
            let i = idem_index(recs, actor, key);
            &&& i == -1 ==> forall|j: int|
                0 <= j < recs.len() ==> !matches_idem(#[trigger] recs[j], actor, key)
            &&& i != -1 ==> 0 <= i < recs.len() && matches_idem(recs[i], actor, key) && forall|
                j: int,
            | 0 <= j < i ==> !matches_idem(#[trigger] recs[j], actor, key)
        }),
    decreases recs.len(),
{
    if recs.len() > 0 && !matches_idem(recs[0], actor, key) {
        lemma_idem_index(recs.drop_first(), actor, key);
        assert(forall|j: int|
            1 <= j < recs.len() ==> recs.drop_first()[j - 1] == #[trigger] recs[j]);
    }
}



/// A first match at index `i` pins down `idem_index` and `lookup_idem`.
pub proof fn lemma_found_at(recs: Seq<IdemModel>, actor: u128, key: Seq<char>, i: int)
    requires
        0 <= i < recs.len(),
        matches_idem(recs[i], actor, key),
        forall|j: int| 0 <= j < i ==> !matches_idem(#[trigger] recs[j], actor, key),
    ensures
        idem_index(recs, actor, key) == i,
        lookup_idem(recs, actor, key) == Some(recs[i]),
{
    lemma_idem_index(recs, actor, key);
}

/// No match anywhere pins `idem_index` to -1 and `lookup_idem` to `None`.
pub proof fn lemma_not_found(recs: Seq<IdemModel>, actor: u128, key: Seq<char>)
    requires
        forall|j: int| 0 <= j < recs.len() ==> !matches_idem(#[trigger] recs[j], actor, key),
    ensures
        idem_index(recs, actor, key) == -1,
        lookup_idem(recs, actor, key) is None,
{
    lemma_idem_index(recs, actor, key);
}

/// The first record for (actor, key), if any. Under the store's
/// well-formedness there is at most one.
pub open spec fn lookup_idem(recs: Seq<IdemModel>, actor: u128, key: Seq<char>) -> Option<
    IdemModel,
> {
    let i = idem_index(recs, actor, key);
    if i == -1 {
        None
    } else {
        Some(recs[i])
    }
}


/// What `begin_or_replay` found for the submitted (actor, key) pair.
#[derive(Debug)]
pub enum BeginOutcome {
    /// A completed execution exists: its response is replayed verbatim.
    Replay(StoredResponse),
    /// A placeholder exists: a submission of the same pair is in flight.
    InFlight,
    /// The pair was unknown; a placeholder has been inserted and the
    /// caller now owns the execution.
    Started,
}

/// Mathematical shape of a `BeginOutcome`.
pub ghost enum BeginModel {
    Replay(ResponseModel),
    InFlight,
    Started,
}

impl View for BeginOutcome {
    type V = BeginModel;

    open spec fn view(&self) -> BeginModel {
        match self {
            BeginOutcome::Replay(r) => BeginModel::Replay(r@),
            BeginOutcome::InFlight => BeginModel::InFlight,
            BeginOutcome::Started => BeginModel::Started,
        }
    }
}

/// State after `begin_or_replay`: unchanged when the pair is known,
/// extended by a placeholder otherwise.
pub open spec fn begin_next(m: StoreModel, actor: u128, key: Seq<char>, now: i64) -> StoreModel {
    if lookup_idem(m.idempotency, actor, key) is Some {
        m
    } else {
        StoreModel {
            idempotency: m.idempotency.push(
                IdemModel { actor_id: actor, key: key, created_at: now, response: None },
            ),
            ..m
        }
    }
}

/// Outcome of `begin_or_replay` for the submitted pair.
pub open spec fn begin_outcome(m: StoreModel, actor: u128, key: Seq<char>) -> BeginModel {
    match lookup_idem(m.idempotency, actor, key) {
        Some(rec) => match rec.response {
            Some(r) => BeginModel::Replay(r),
            None => BeginModel::InFlight,
        },
        None => BeginModel::Started,
    }
}

/// State after `complete`: the dangling placeholder for (actor, key), if
/// there is one, is filled with the response.
pub open spec fn complete_next(
    m: StoreModel,
    actor: u128,
    key: Seq<char>,
    resp: ResponseModel,
) -> StoreModel {
    let i = idem_index(m.idempotency, actor, key);
    if i != -1 && m.idempotency[i].response is None {
        StoreModel {
            idempotency: m.idempotency.update(
                i,
                IdemModel { response: Some(resp), ..m.idempotency[i] },
            ),
            ..m
        }
    } else {
        m
    }
}

/// Whether `complete` finds a dangling placeholder to fill.
pub open spec fn complete_finds_placeholder(m: StoreModel, actor: u128, key: Seq<char>) -> bool {
    let i = idem_index(m.idempotency, actor, key);
    i != -1 && m.idempotency[i].response is None
}

impl Store {
    /// Saved response for (actor, key), if that execution has completed.
    /// `None` covers both an unknown pair and one still in flight.
    #[verifier::loop_isolation(false)]
    pub fn get_saved_response(&self, actor_id: u128, key: &IdempotencyKey) -> (r: Option<
        StoredResponse,
    >)
        ensures
            match lookup_idem(self@.idempotency, actor_id, key@) {
                Some(rec) => match rec.response {
                    Some(resp) => r matches Some(out) && out@ == resp,
                    None => r is None,
                },
                None => r is None,
            },
    {
        proof {
            lemma_idem_index(self@.idempotency, actor_id, key@);
        }
        let n = self.idempotency.len();
        let mut i: usize = 0;
        while i < n
            invariant
                0 <= i <= n,
                forall|j: int|
                    0 <= j < i ==> !matches_idem(#[trigger] self@.idempotency[j], actor_id, key@),
            decreases n - i,
        {
            let rec = &self.idempotency[i];
            if rec.actor_id == actor_id && rec.key == key.0 {
                proof {
                    assert(self@.idempotency[i as int] == self.idempotency@[i as int]@);
                    lemma_found_at(self@.idempotency, actor_id, key@, i as int);
                }
                match &rec.response {
                    Some(resp) => {
                        return Some(resp.duplicate());
                    },
                    None => {
                        return None;
                    },
                }
            }
            i = i + 1;
        }
        proof {
            lemma_not_found(self@.idempotency, actor_id, key@);
        }
        None
    }

    /// First phase of the idempotency protocol: replay a completed
    /// execution, report one in flight, or claim the pair by inserting a
    /// placeholder record.
    #[verifier::loop_isolation(false)]
    pub fn begin_or_replay(&mut self, actor_id: u128, key: &IdempotencyKey, now: i64) -> (r:
        BeginOutcome)
        requires
            old(self).wf(),
        ensures
            final(self).wf(),
            final(self)@ == begin_next(old(self)@, actor_id, key@, now),
            r@ == begin_outcome(old(self)@, actor_id, key@),
    {
        proof {
            lemma_idem_index(self@.idempotency, actor_id, key@);
        }
        let n = self.idempotency.len();
        let mut i: usize = 0;
        while i < n
            invariant
                0 <= i <= n,
                *self == *old(self),
                forall|j: int|
                    0 <= j < i ==> !matches_idem(#[trigger] self@.idempotency[j], actor_id, key@),
            decreases n - i,
        {
            let rec = &self.idempotency[i];
            if rec.actor_id == actor_id && rec.key == key.0 {
                proof {
                    assert(self@.idempotency[i as int] == self.idempotency@[i as int]@);
                    lemma_found_at(self@.idempotency, actor_id, key@, i as int);
                }
                match &rec.response {
                    Some(resp) => {
                        return BeginOutcome::Replay(resp.duplicate());
                    },
                    None => {
                        return BeginOutcome::InFlight;
                    },
                }
            }
            i = i + 1;
        }
        proof {
            lemma_not_found(self@.idempotency, actor_id, key@);
        }
        let placeholder = IdempotencyRecord {
            actor_id,
            key: key.0.clone(),
            created_at: now,
            response: None,
        };
        self.idempotency.push(placeholder);
        proof {
            assert(self@.idempotency =~= old(self)@.idempotency.push(
                IdemModel { actor_id, key: key@, created_at: now, response: None },
            ));
            assert(self@ =~= begin_next(old(self)@, actor_id, key@, now));
        }
        BeginOutcome::Started
    }

    /// Second phase of the idempotency protocol: record the final response
    /// in the placeholder for (actor, key). Returns whether a dangling
    /// placeholder was found; an unknown pair or an already completed
    /// record is left untouched.
    #[verifier::loop_isolation(false)]
    pub fn complete(&mut self, actor_id: u128, key: &IdempotencyKey, response: StoredResponse) -> (r:
        bool)
        requires
            old(self).wf(),
        ensures
            final(self).wf(),
            final(self)@ == complete_next(old(self)@, actor_id, key@, response@),
            r == complete_finds_placeholder(old(self)@, actor_id, key@),
    {
        proof {
            lemma_idem_index(self@.idempotency, actor_id, key@);
        }
        let n = self.idempotency.len();
        let mut i: usize = 0;
        while i < n
            invariant
                0 <= i <= n,
                *self == *old(self),
                forall|j: int|
                    0 <= j < i ==> !matches_idem(#[trigger] self@.idempotency[j], actor_id, key@),
            decreases n - i,
        {
            let found = {
                let rec = &self.idempotency[i];
                rec.actor_id == actor_id && rec.key == key.0
            };
            if found {
                proof {
                    assert(self@.idempotency[i as int] == self.idempotency@[i as int]@);
                    lemma_found_at(self@.idempotency, actor_id, key@, i as int);
                }
                let is_placeholder = {
                    let rec = &self.idempotency[i];
                    rec.response.is_none()
                };
                if is_placeholder {
                    let mut rec = self.idempotency.remove(i);
                    rec.response = Some(response);
                    self.idempotency.insert(i, rec);
                    proof {
                        assert(self@.idempotency =~= old(self)@.idempotency.update(
                            i as int,
                            IdemModel {
                                response: Some(response@),
                                ..old(self)@.idempotency[i as int]
                            },
                        ));
                        assert(self@ =~= complete_next(old(self)@, actor_id, key@, response@));
                    }
                    return true;
                } else {
                    return false;
                }
            }
            i = i + 1;
        }
        proof {
            lemma_not_found(self@.idempotency, actor_id, key@);
        }
        false
    }
}

} // verus!
