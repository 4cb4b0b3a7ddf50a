use platform_rs::http::{content_security_policy, handler_404, route_auth_guard, AuthGuardOutcome};
use platform_rs::templates::render;

#[test]
fn unauthenticated_and_forbidden_redirect_to_login() {
    for status in [401u16, 403] {
        assert_eq!(
            route_auth_guard(status),
            AuthGuardOutcome::RedirectToLogin { status: 302, location: "login?message=auth_required" }
        );
    }
    for status in [200u16, 302, 404, 500] {
        assert_eq!(route_auth_guard(status), AuthGuardOutcome::PassThrough);
    }
}

#[test]
fn csp_carries_the_nonce() {
    assert_eq!(
        content_security_policy("abc-123"),
        "object-src 'none'; base-uri 'none'; script-src 'nonce-abc-123'"
    );
}

#[test]
fn not_found_status() {
    assert_eq!(handler_404(), 404);
}

#[test]
fn render_falls_back_on_failure() {
    assert_eq!(render(Some("<p>hi</p>".into())), "<p>hi</p>");
    assert_eq!(render(None), "Failed to render template");
}
