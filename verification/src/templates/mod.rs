//! Static page templates: the data each page renders, and the
//! breadcrumb path shown at its top.

use vstd::prelude::*;

pub mod admin_dashboard;
pub mod admin_newsletter;
pub mod change_password;
pub mod home;
pub mod login;
pub mod signup;

pub use admin_dashboard::AdminDashboardTemplate;
pub use admin_newsletter::SendNewsletterTemplate;
pub use change_password::ChangePasswordTemplate;
pub use home::HomeTemplate;
pub use login::LoginTemplate;
pub use signup::SignupTemplate;

verus! {

/// One segment of a page's breadcrumb path.
#[derive(Debug)]
pub struct PathPart<'a> {
    pub link: &'a str,
    pub name: &'a str,
}

impl<'a> PathPart<'a> {
    fn new(link: &'a str, name: &'a str) -> (r: Self)
        ensures
            r.link@ == link@,
            r.name@ == name@,
    {
        Self { link, name }
    }
}

} // verus!
