//! The newsletter publishing page.

use vstd::prelude::*;
use super::{admin_dashboard, PathPart};

verus! {

/// Data of the newsletter publishing page.
#[derive(Debug)]
pub struct SendNewsletterTemplate<'a> {
    pub error: &'a str,
    pub info: &'a str,
    pub idempotency_key: &'a str,
}

/// Breadcrumb path of the newsletter publishing page: the dashboard,
/// then the publish form.
pub fn path() -> (r: Vec<PathPart<'static>>)
    ensures
        r@.len() == 2,
        r@[0].link@ == "/admin/dashboard"@,
        r@[0].name@ == "Dashboard"@,
        r@[1].link@ == "/admin/newsletter"@,
        r@[1].name@ == "Publish newsletter"@,
{
    let mut path = admin_dashboard::path();
    path.push(PathPart::new("/admin/newsletter", "Publish newsletter"));
    path
}

} // verus!
