//! The password change page.

use vstd::prelude::*;
use super::{admin_dashboard, PathPart};

verus! {

/// Data of the password change page.
#[derive(Debug)]
pub struct ChangePasswordTemplate<'a> {
    pub error: &'a str,
    pub info: &'a str,
}

/// Breadcrumb path of the password change page: the dashboard, then the
/// password form.
pub fn path() -> (r: Vec<PathPart<'static>>)
    ensures
        r@.len() == 2,
        r@[0].link@ == "/admin/dashboard"@,
        r@[0].name@ == "Dashboard"@,
        r@[1].link@ == "/admin/password"@,
        r@[1].name@ == "Change password"@,
{
    let mut path = admin_dashboard::path();
    path.push(PathPart::new("/admin/password", "Change password"));
    path
}

} // verus!
