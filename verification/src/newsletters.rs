//! The HTTP-basic publish endpoint: parse the Authorization header,
//! check the credentials, and prepare one send per confirmed subscriber
//! whose stored address is still structurally valid.

use vstd::prelude::*;
use vstd::string::StringSliceAdditionalSpecFns;
use vstd::utf8::{decode_utf8, encode_utf8, valid_utf8};
use base64::Engine;
use crate::authentication::{validate_credentials, Credentials};
use crate::domain::{valid_email_chars, SubscriberEmail};
use crate::email_client::EmailRequest;
use crate::idempotency::ResponseModel;
use crate::idempotency::StoredResponse;
use crate::store::{lookup_credentials, Store, StoreModel, SubscriberRecord, SubscriberStatus};

verus! {

/// The publish request body of the basic-auth endpoint.
#[derive(Debug)]
pub struct NewsletterRequestBody {
    pub title: String,
    pub content: Content,
}

/// The two renderings of one newsletter issue.
#[derive(Debug)]
pub struct Content {
    pub text: String,
    pub html: String,
}

/// Why a publish request was rejected.
#[derive(Debug)]
pub enum PublishError {
    /// The caller could not be authenticated.
    AuthError(String),
    /// Something else went wrong serving the request.
    UnexpectedError(String),
}

impl PublishError {
    /// The HTTP response this error surfaces as: an authentication
    /// failure challenges the client, anything else is a bare server
    /// error.
    pub fn error_response(&self) -> (r: StoredResponse)
        ensures
            self matches PublishError::AuthError(_) ==> r@ == (ResponseModel {
                status: 401,
                headers: seq![("WWW-Authenticate"@, "Basic realm=\"publish\""@)],
                body: Seq::empty(),
            }),
            self matches PublishError::UnexpectedError(_) ==> r@ == (ResponseModel {
                status: 500,
                headers: Seq::empty(),
                body: Seq::empty(),
            }),
    {
        match self {
            PublishError::AuthError(_) => {
                let mut headers: Vec<(String, String)> = Vec::new();
                headers.push(
                    (
                        String::from_str("WWW-Authenticate"),
                        String::from_str("Basic realm=\"publish\""),
                    ),
                );
                let r = StoredResponse { status: 401, headers, body: Vec::new() };
                proof {
                    assert(r@.headers =~= seq![("WWW-Authenticate"@, "Basic realm=\"publish\""@)]);
                }
                r
            },
            PublishError::UnexpectedError(_) => {
                let r = StoredResponse { status: 500, headers: Vec::new(), body: Vec::new() };
                proof {
                    assert(r@.headers =~= Seq::<(Seq<char>, Seq<char>)>::empty());
                }
                r
            },
        }
    }
}

/// Names the bytes that decoding standard base64 yields for an input,
/// `None` when the input is not valid base64. The result is a function
/// of the input alone.
pub uninterp spec fn base64_decode_of(s: Seq<u8>) -> Option<Seq<u8>>;

/// Relies on base64's standard-alphabet engine: it decodes valid base64
/// and rejects anything else; the outcome depends on the input alone and
/// is named `base64_decode_of`.
#[verifier::external_body]
fn base64_decode(input: &[u8]) -> (r: Option<Vec<u8>>)
    ensures
        match r {
            Some(v) => base64_decode_of(input@) == Some(v@),
            None => base64_decode_of(input@) is None,
        },
{
    base64::engine::general_purpose::STANDARD.decode(input).ok()
}

/// Relies on std's `String::from_utf8`: it accepts exactly valid UTF-8
/// and decodes it to the characters the bytes encode.
#[verifier::external_body]
fn bytes_to_string(v: Vec<u8>) -> (r: Option<String>)
    ensures
        match r {
            Some(s) => valid_utf8(v@) && s@ == decode_utf8(v@),
            None => !valid_utf8(v@),
        },
{
    String::from_utf8(v).ok()
}

/// The scheme prefix of an HTTP Basic Authorization header value.
pub open spec fn basic_scheme_prefix() -> Seq<u8> {
    encode_utf8("Basic "@)
}

/// Index of the first colon byte, or -1 when there is none.
pub open spec fn colon_index(s: Seq<u8>) -> int
    decreases s.len(),
{
    if s.len() == 0 {
        -1
    } else if s[0] == 58u8 {
        0int
    } else {
        let r = colon_index(s.drop_first());
        if r == -1 {
            -1
        } else {
            r + 1
        }
    }
}

/// The index returned by `colon_index` is the first colon, and -1 means
/// there is none.
pub proof fn lemma_colon_index(s: Seq<u8>)
    ensures
        ({
            let i = colon_index(s);
            &&& i == -1 ==> forall|j: int| 0 <= j < s.len() ==> #[trigger] s[j] != 58u8
            &&& i != -1 ==> 0 <= i < s.len() && s[i] == 58u8 && forall|j: int|
                0 <= j < i ==> #[trigger] s[j] != 58u8
        }),
    decreases s.len(),
{
    if s.len() > 0 && s[0] != 58u8 {
        lemma_colon_index(s.drop_first());
        assert(forall|j: int| 1 <= j < s.len() ==> s.drop_first()[j - 1] == #[trigger] s[j]);
    }
}

/// Splits credential bytes at the first colon: username before it,
/// password after it; no colon means no credentials.
pub open spec fn split_at_colon(s: Seq<u8>) -> Option<(Seq<u8>, Seq<u8>)> {
    let i = colon_index(s);
    if i == -1 {
        None
    } else {
        Some((s.take(i), s.skip(i + 1)))
    }
}

/// How an Authorization header value decomposes under the Basic scheme:
/// the scheme prefix, then base64 of "username:password".
pub open spec fn basic_credentials_bytes(header: Seq<u8>) -> Option<(Seq<u8>, Seq<u8>)> {
    let p = basic_scheme_prefix();
    if header.len() < p.len() || header.take(p.len() as int) != p {
        None
    } else {
        match base64_decode_of(header.skip(p.len() as int)) {
            Some(decoded) => split_at_colon(decoded),
            None => None,
        }
    }
}

/// Parses an HTTP Basic Authorization header value into credentials.
///
/// Succeeds exactly when the value carries the "Basic " scheme followed
/// by valid base64 whose decoding contains a colon and is valid UTF-8 on
/// both sides of it: the username is everything before the first colon,
/// the password everything after it.
#[verifier::loop_isolation(false)]
pub fn basic_auth(header_value: &str) -> (r: Result<Credentials, String>)
    ensures
        match basic_credentials_bytes(header_value.spec_bytes()) {
            Some(parts) => {
                &&& valid_utf8(parts.0) && valid_utf8(parts.1) ==> (r matches Ok(c) && c.username@
                    == decode_utf8(parts.0) && c.password@ == decode_utf8(parts.1))
                &&& !(valid_utf8(parts.0) && valid_utf8(parts.1)) ==> r is Err
            },
            None => r is Err,
        },
{
    let header_bytes: &[u8] = header_value.as_bytes();
    let prefix: &[u8] = "Basic ".as_bytes();
    let plen: usize = prefix.len();
    if header_bytes.len() < plen {
        return Err(String::from_str("The authorization scheme was not 'Basic'"));
    }
    let mut i: usize = 0;
    while i < plen
        invariant
            0 <= i <= plen,
            forall|j: int| 0 <= j < i ==> header_bytes@[j] == #[trigger] prefix@[j],
        decreases plen - i,
    {
        if header_bytes[i] != prefix[i] {
            proof {
                assert(header_value.spec_bytes().take(plen as int)[i as int]
                    != basic_scheme_prefix()[i as int]);
            }
            return Err(String::from_str("The authorization scheme was not 'Basic'"));
        }
        i = i + 1;
    }
    proof {
        assert(header_value.spec_bytes().take(plen as int) =~= basic_scheme_prefix());
    }
    let mut encoded: Vec<u8> = Vec::new();
    let mut k: usize = plen;
    while k < header_bytes.len()
        invariant
            plen <= k <= header_bytes@.len(),
            encoded@ == header_bytes@.subrange(plen as int, k as int),
        decreases header_bytes.len() - k,
    {
        encoded.push(header_bytes[k]);
        k = k + 1;
    }
    proof {
        assert(encoded@ =~= header_value.spec_bytes().skip(plen as int));
    }
    let decoded = match base64_decode(encoded.as_slice()) {
        Some(d) => d,
        None => {
            return Err(String::from_str("Failed to base64 decode 'Basic' credentials"));
        },
    };
    proof {
        lemma_colon_index(decoded@);
    }
    let dn = decoded.len();
    let mut c: usize = 0;
    while c < dn
        invariant
            0 <= c <= dn,
            forall|j: int| 0 <= j < c ==> #[trigger] decoded@[j] != 58u8,
        decreases dn - c,
    {
        if decoded[c] == 58u8 {
            // Split here: everything before the first colon is the
            // username, everything after it the password.
            let mut user_bytes: Vec<u8> = Vec::new();
            let mut a: usize = 0;
            while a < c
                invariant
                    0 <= a <= c < dn,
                    dn == decoded@.len(),
                    user_bytes@ == decoded@.take(a as int),
                decreases c - a,
            {
                user_bytes.push(decoded[a]);
                a = a + 1;
            }
            let mut pass_bytes: Vec<u8> = Vec::new();
            let mut b: usize = c + 1;
            while b < dn
                invariant
                    c + 1 <= b <= dn,
                    dn == decoded@.len(),
                    pass_bytes@ == decoded@.subrange(c + 1, b as int),
                decreases dn - b,
            {
                pass_bytes.push(decoded[b]);
                b = b + 1;
            }
            proof {
                assert(colon_index(decoded@) == c as int);
                assert(user_bytes@ =~= decoded@.take(c as int));
                assert(pass_bytes@ =~= decoded@.skip(c + 1));
            }
            let username = match bytes_to_string(user_bytes) {
                Some(u) => u,
                None => {
                    return Err(
                        String::from_str("The decoded credential string is not valid UTF8"),
                    );
                },
            };
            let password = match bytes_to_string(pass_bytes) {
                Some(p) => p,
                None => {
                    return Err(
                        String::from_str("The decoded credential string is not valid UTF8"),
                    );
                },
            };
            return Ok(Credentials { username, password });
        }
        c = c + 1;
    }
    Err(String::from_str("A password must be provided for 'Basic' auth."))
}


/// A confirmed subscriber whose stored address parsed.
#[derive(Debug)]
pub struct ConfirmedSubscriber {
    pub email: SubscriberEmail,
}

/// Emails of the confirmed subscribers, in table order.
pub open spec fn confirmed_emails(subs: Seq<SubscriberRecord>) -> Seq<Seq<char>>
    decreases subs.len(),
{
    if subs.len() == 0 {
        Seq::empty()
    } else {
        let rest = confirmed_emails(subs.drop_last());
        if subs.last().status == SubscriberStatus::Confirmed {
            rest.push(subs.last().email@)
        } else {
            rest
        }
    }
}

/// Emails of the confirmed subscribers whose stored address is still
/// structurally valid, in table order.
pub open spec fn deliverable_emails(subs: Seq<SubscriberRecord>) -> Seq<Seq<char>>
    decreases subs.len(),
{
    if subs.len() == 0 {
        Seq::empty()
    } else {
        let rest = deliverable_emails(subs.drop_last());
        if subs.last().status == SubscriberStatus::Confirmed && valid_email_chars(
            subs.last().email@,
        ) {
            rest.push(subs.last().email@)
        } else {
            rest
        }
    }
}

/// The confirmed subscribers, one row each: a row whose stored address
/// no longer parses comes back as an error for the caller to log and
/// skip.
#[verifier::loop_isolation(false)]
pub fn get_confirmed_subscribers(store: &Store) -> (r: Vec<Result<ConfirmedSubscriber, String>>)
    ensures
        ({
            let es = confirmed_emails(store@.subscribers);
            &&& r@.len() == es.len()
            &&& forall|k: int|
                0 <= k < es.len() ==> {
                    &&& valid_email_chars(es[k]) ==> ((#[trigger] r@[k]) matches Ok(c)
                        && c.email@ == es[k])
                    &&& !valid_email_chars(es[k]) ==> r@[k] is Err
                }
        }),
{
    let mut r: Vec<Result<ConfirmedSubscriber, String>> = Vec::new();
    let n = store.subscribers.len();
    let mut i: usize = 0;
    while i < n
        invariant
            0 <= i <= n,
            ({
                let es = confirmed_emails(store@.subscribers.take(i as int));
                &&& r@.len() == es.len()
                &&& forall|k: int|
                    0 <= k < es.len() ==> {
                        &&& valid_email_chars(es[k]) ==> ((#[trigger] r@[k]) matches Ok(
                            c) && c.email@ == es[k])
                        &&& !valid_email_chars(es[k]) ==> r@[k] is Err
                    }
            }),
        decreases n - i,
    {
        let confirmed = store.subscribers[i].status == SubscriberStatus::Confirmed;
        if confirmed {
            match SubscriberEmail::parse(store.subscribers[i].email.clone()) {
                Ok(email) => {
                    r.push(Ok(ConfirmedSubscriber { email }));
                },
                Err(e) => {
                    r.push(Err(e));
                },
            }
        }
        proof {
            let subs = store@.subscribers;
            assert(subs.take(i + 1).drop_last() =~= subs.take(i as int));
            assert(subs.take(i + 1).last() == subs[i as int]);
        }
        i = i + 1;
    }
    proof {
        assert(store@.subscribers.take(n as int) =~= store@.subscribers);
    }
    r
}

/// Who a Basic Authorization header authenticates against the store, if
/// anyone.
pub open spec fn authorized_user(m: StoreModel, header: Seq<u8>) -> Option<u128> {
    match basic_credentials_bytes(header) {
        Some(parts) => if valid_utf8(parts.0) && valid_utf8(parts.1) {
            lookup_credentials(m.users, decode_utf8(parts.0), decode_utf8(parts.1))
        } else {
            None
        },
        None => None,
    }
}

/// Serves the basic-auth publish endpoint.
///
/// Authenticates the caller from the Authorization header, then prepares
/// one send per confirmed subscriber whose stored address is still
/// structurally valid; corrupt rows are reported for logging and
/// skipped. Unlike the admin pipeline this endpoint hands every
/// email out at once and is not idempotent.
#[verifier::loop_isolation(false)]
pub fn publish_newsletter(
    store: &Store,
    authorization: &str,
    body: &NewsletterRequestBody,
) -> (r: Result<Vec<EmailRequest>, PublishError>)
    ensures
        match authorized_user(store@, authorization.spec_bytes()) {
            Some(_) => r matches Ok(emails) && ({
                let es = deliverable_emails(store@.subscribers);
                &&& emails@.len() == es.len()
                &&& forall|k: int|
                    0 <= k < es.len() ==> {
                        &&& (#[trigger] emails@[k]).recipient@ == es[k]
                        &&& emails@[k].subject@ == body.title@
                        &&& emails@[k].html_body@ == body.content.html@
                        &&& emails@[k].text_body@ == body.content.text@
                    }
            }),
            None => (r matches Err(e) && e matches PublishError::AuthError(_)),
        },
{
    let credentials = match basic_auth(authorization) {
        Ok(c) => c,
        Err(e) => {
            return Err(PublishError::AuthError(e));
        },
    };
    match validate_credentials(&credentials, store) {
        Ok(_) => {},
        Err(_) => {
            return Err(PublishError::AuthError(String::from_str(
                "Invalid username or password.",
            )));
        },
    }
    let mut emails: Vec<EmailRequest> = Vec::new();
    let n = store.subscribers.len();
    let mut i: usize = 0;
    while i < n
        invariant
            0 <= i <= n,
            ({
                let es = deliverable_emails(store@.subscribers.take(i as int));
                &&& emails@.len() == es.len()
                &&& forall|k: int|
                    0 <= k < es.len() ==> {
                        &&& (#[trigger] emails@[k]).recipient@ == es[k]
                        &&& emails@[k].subject@ == body.title@
                        &&& emails@[k].html_body@ == body.content.html@
                        &&& emails@[k].text_body@ == body.content.text@
                    }
            }),
        decreases n - i,
    {
        let s = &store.subscribers[i];
        let deliver = s.status == SubscriberStatus::Confirmed && crate::domain::is_valid_email(
            s.email.as_str(),
        );
        if deliver {
            emails.push(
                EmailRequest {
                    recipient: s.email.clone(),
                    subject: body.title.clone(),
                    html_body: body.content.html.clone(),
                    text_body: body.content.text.clone(),
                },
            );
        }
        proof {
            let subs = store@.subscribers;
            assert(subs.take(i + 1).drop_last() =~= subs.take(i as int));
            assert(subs.take(i + 1).last() == subs[i as int]);
        }
        i = i + 1;
    }
    proof {
        assert(store@.subscribers.take(n as int) =~= store@.subscribers);
    }
    Ok(emails)
}

} // verus!
