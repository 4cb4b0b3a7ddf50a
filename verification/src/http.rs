use vstd::prelude::*;

verus! {

/// What the authentication guard does with a response.
#[derive(Debug, Clone, Copy, PartialEq, Eq)]
pub enum AuthGuardOutcome {
    /// The response goes out unchanged.
    PassThrough,
    /// The response becomes a redirect to the login page.
    RedirectToLogin { status: u16, location: &'static str },
}

/// The authentication guard: a response refused for missing or invalid
/// credentials (401 or 403) becomes a redirect (302) to the login page with
/// the message `auth_required`; any other response passes.
pub fn route_auth_guard(status: u16) -> (outcome: AuthGuardOutcome)
    ensures
        (status == 401 || status == 403) ==> (outcome matches AuthGuardOutcome::RedirectToLogin {
            status: redirect_status,
            location,
        } && redirect_status == 302 && location@ == "login?message=auth_required"@),
        !(status == 401 || status == 403) ==> outcome == AuthGuardOutcome::PassThrough,
{
    let is_unauthenticated = status == 401;
    let is_unauthorized = status == 403;
    if is_unauthenticated || is_unauthorized {
        AuthGuardOutcome::RedirectToLogin { status: 302, location: "login?message=auth_required" }
    } else {
        AuthGuardOutcome::PassThrough
    }
}

/// The fixed part of the content security policy, before the nonce.
pub open spec fn csp_prefix() -> Seq<char> {
    "object-src 'none'; base-uri 'none'; script-src 'nonce-"@
}

/// The content security policy of a response: no plugins, no base URL, and
/// only scripts that carry the request's nonce.
pub fn content_security_policy(nonce: &str) -> (policy: String)
    ensures
        policy@ == csp_prefix() + nonce@ + "'"@,
{
    let mut policy = "object-src 'none'; base-uri 'none'; script-src 'nonce-".to_owned();
    policy.append(nonce);
    policy.append("'");
    policy
}

/// The page shown for an unknown route.
#[derive(Debug)]
pub struct NotFoundTemplate {}

/// The status of the answer to an unknown route.
pub fn handler_404() -> (status: u16)
    ensures
        status == 404,
{
    404
}

} // verus!
