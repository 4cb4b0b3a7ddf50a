use vstd::prelude::*;

verus! {

/// The sign-up page.
#[derive(Debug)]
pub struct SignupTemplate {}

/// Where a sign-up leads: the login page with `success` when the user was
/// created, else the sign-up page with `error`.
pub fn signup_handler(created: bool) -> (location: &'static str)
    ensures
        location@ == if created {
            "/login?message=success"@
        } else {
            "/signup?message=error"@
        },
{
    if created {
        "/login?message=success"
    } else {
        "/signup?message=error"
    }
}

} // verus!
