//! Newsletter delivery library: subscription management, an idempotency
//! store that makes the publish endpoint safe to retry, a durable delivery
//! queue written in the same transaction as each newsletter issue, and a
//! background worker that drains the queue one entry at a time.

use vstd::prelude::*;

pub mod authentication;
pub mod domain;
pub mod email_client;
pub mod idempotency;
pub mod login;
pub mod messages;
pub mod newsletters;
pub mod publish;
pub mod signup;
pub mod store;
pub mod subscriptions;
pub mod templates;
pub mod subscriptions_confirm;
pub mod worker;

verus! {

/// Base URL of the running application, used when building confirmation links.
pub struct ApplicationBaseUrl(pub String);

} // verus!
