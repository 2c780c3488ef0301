//! The login page.

use vstd::prelude::*;
use super::{home, PathPart};

verus! {

/// Data of the login page.
#[derive(Debug)]
pub struct LoginTemplate<'a> {
    pub error: &'a str,
    pub info: &'a str,
}

/// Breadcrumb path of the login page: home, then login.
pub fn path() -> (r: Vec<PathPart<'static>>)
    ensures
        r@.len() == 2,
        r@[0].link@ == "/"@,
        r@[0].name@ == "Home"@,
        r@[1].link@ == "/login"@,
        r@[1].name@ == "Login"@,
{
    let mut path = home::path();
    path.push(PathPart::new("/login", "Login"));
    path
}

} // verus!
