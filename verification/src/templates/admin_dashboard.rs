//! The admin dashboard page.

use vstd::prelude::*;
use super::PathPart;

verus! {

/// Data of the admin dashboard page.
#[derive(Debug)]
pub struct AdminDashboardTemplate<'a> {
    pub username: &'a str,
}

/// Breadcrumb path of the admin dashboard page.
pub fn path() -> (r: Vec<PathPart<'static>>)
    ensures
        r@.len() == 1,
        r@[0].link@ == "/admin/dashboard"@,
        r@[0].name@ == "Dashboard"@,
{
    let mut path: Vec<PathPart<'static>> = Vec::new();
    path.push(PathPart::new("/admin/dashboard", "Dashboard"));
    path
}

} // verus!
