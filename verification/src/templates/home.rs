//! The landing page.

use vstd::prelude::*;
use super::PathPart;

verus! {

/// Data of the landing page.
#[derive(Debug)]
pub struct HomeTemplate;

/// Breadcrumb path of the landing page.
pub fn path() -> (r: Vec<PathPart<'static>>)
    ensures
        r@.len() == 1,
        r@[0].link@ == "/"@,
        r@[0].name@ == "Home"@,
{
    let mut path: Vec<PathPart<'static>> = Vec::new();
    path.push(PathPart::new("/", "Home"));
    path
}

} // verus!
