//! The signup page.

use vstd::prelude::*;
use super::{home, PathPart};

verus! {

/// Data of the signup page.
#[derive(Debug)]
pub struct SignupTemplate<'a> {
    pub error: &'a str,
    pub info: &'a str,
}

/// Breadcrumb path of the signup page: home, then signup.
pub fn path() -> (r: Vec<PathPart<'static>>)
    ensures
        r@.len() == 2,
        r@[0].link@ == "/"@,
        r@[0].name@ == "Home"@,
        r@[1].link@ == "/signup"@,
        r@[1].name@ == "Signup"@,
{
    let mut path = home::path();
    path.push(PathPart::new("/signup", "Signup"));
    path
}

} // verus!
