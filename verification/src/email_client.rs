//! The outbound email boundary: the library prepares fully-formed send
//! requests; dispatching them over the wire is the caller's transport's
//! job, and what the transport reported comes back through the worker's settle step.

use vstd::prelude::*;

verus! {

/// One email, ready for the transport:
/// `send(recipient, subject, html, text)`.
#[derive(Debug)]
pub struct EmailRequest {
    pub recipient: String,
    pub subject: String,
    pub html_body: String,
    pub text_body: String,
}

} // verus!
