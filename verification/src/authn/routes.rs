use vstd::prelude::*;

use crate::routing::SerializableAsUrl;

verus! {

/// The routes of the account pages.
#[derive(Clone, Copy, Debug)]
pub enum AuthRoute {
    Login,
    Logout,
    Signup,
}

impl SerializableAsUrl for AuthRoute {
    open spec fn url(&self) -> Seq<char> {
        match self {
            AuthRoute::Login => "/login"@,
            AuthRoute::Logout => "/logout"@,
            AuthRoute::Signup => "/signup"@,
        }
    }

    fn as_url(&self) -> (path: &'static str) {
        match self {
            AuthRoute::Login => "/login",
            AuthRoute::Logout => "/logout",
            AuthRoute::Signup => "/signup",
        }
    }
}

/// An HTTP method a route answers.
#[derive(Clone, Copy, Debug, PartialEq, Eq)]
pub enum Method {
    Get,
    Post,
}

/// The handlers behind the account routes.
#[derive(Clone, Copy, Debug, PartialEq, Eq)]
pub enum AuthHandler {
    LoginView,
    LoginHandler,
    LogoutHandler,
    SignupView,
    SignupHandler,
}

/// One route of the account pages: a path, a method and its handler.
#[derive(Clone, Copy, Debug)]
pub struct AuthRouteEntry {
    pub route: AuthRoute,
    pub method: Method,
    pub handler: AuthHandler,
}

/// The handlers that change state: log in, log out, sign up.
pub open spec fn changes_state(handler: AuthHandler) -> bool {
    match handler {
        AuthHandler::LoginView | AuthHandler::SignupView => false,
        _ => true,
    }
}

/// The account routes: the login page and form, the logout action, and the
/// sign-up page and form.
pub open spec fn auth_route_table() -> Seq<AuthRouteEntry> {
    seq![
        AuthRouteEntry { route: AuthRoute::Login, method: Method::Get, handler: AuthHandler::LoginView },
        AuthRouteEntry { route: AuthRoute::Login, method: Method::Post, handler: AuthHandler::LoginHandler },
        AuthRouteEntry { route: AuthRoute::Logout, method: Method::Post, handler: AuthHandler::LogoutHandler },
        AuthRouteEntry { route: AuthRoute::Signup, method: Method::Get, handler: AuthHandler::SignupView },
        AuthRouteEntry { route: AuthRoute::Signup, method: Method::Post, handler: AuthHandler::SignupHandler },
    ]
}

/// The account routes.
pub fn routes() -> (table: Vec<AuthRouteEntry>)
    ensures
        table@ == auth_route_table(),
{
    vec![
        AuthRouteEntry { route: AuthRoute::Login, method: Method::Get, handler: AuthHandler::LoginView },
        AuthRouteEntry { route: AuthRoute::Login, method: Method::Post, handler: AuthHandler::LoginHandler },
        AuthRouteEntry { route: AuthRoute::Logout, method: Method::Post, handler: AuthHandler::LogoutHandler },
        AuthRouteEntry { route: AuthRoute::Signup, method: Method::Get, handler: AuthHandler::SignupView },
        AuthRouteEntry { route: AuthRoute::Signup, method: Method::Post, handler: AuthHandler::SignupHandler },
    ]
}

/// No account route changes state on a GET request: every handler that
/// logs in, logs out or signs up is reached by POST only, and every POST
/// route changes state.
pub proof fn law_no_state_change_on_get()
    ensures
        forall|i: int|
            0 <= i < auth_route_table().len() ==> (changes_state(
                #[trigger] auth_route_table()[i].handler,
            ) <==> auth_route_table()[i].method == Method::Post),
{
}

/// The handlers that may answer a route: each account page is answered by
/// its own handlers only.
pub open spec fn handler_belongs_to(route: AuthRoute, handler: AuthHandler) -> bool {
    match route {
        AuthRoute::Login => handler == AuthHandler::LoginView || handler == AuthHandler::LoginHandler,
        AuthRoute::Logout => handler == AuthHandler::LogoutHandler,
        AuthRoute::Signup => handler == AuthHandler::SignupView || handler == AuthHandler::SignupHandler,
    }
}

/// Some account route is answered by the handler.
pub open spec fn handler_served(handler: AuthHandler) -> bool {
    exists|i: int| 0 <= i < auth_route_table().len() && auth_route_table()[i].handler == handler
}

/// Each account route is answered by its own handlers; a GET shows a page
/// (the login page at the login route, the sign-up page at the sign-up
/// route) and both pages are served; every handler is reachable.
pub proof fn law_routes_answered_by_their_own_handlers()
    ensures
        forall|i: int|
            0 <= i < auth_route_table().len() ==> handler_belongs_to(
                #[trigger] auth_route_table()[i].route,
                auth_route_table()[i].handler,
            ),
        forall|i: int|
            0 <= i < auth_route_table().len() && #[trigger] auth_route_table()[i].method
                == Method::Get ==> (auth_route_table()[i].route == AuthRoute::Login
                && auth_route_table()[i].handler == AuthHandler::LoginView) || (
            auth_route_table()[i].route == AuthRoute::Signup && auth_route_table()[i].handler
                == AuthHandler::SignupView),
        forall|h: AuthHandler| #[trigger] handler_served(h),
        exists|i: int|
            0 <= i < auth_route_table().len() && auth_route_table()[i] == (AuthRouteEntry {
                route: AuthRoute::Login,
                method: Method::Get,
                handler: AuthHandler::LoginView,
            }),
        exists|i: int|
            0 <= i < auth_route_table().len() && auth_route_table()[i] == (AuthRouteEntry {
                route: AuthRoute::Signup,
                method: Method::Get,
                handler: AuthHandler::SignupView,
            }),
{
    let t = auth_route_table();
    assert(t[0] == AuthRouteEntry { route: AuthRoute::Login, method: Method::Get, handler: AuthHandler::LoginView });
    assert(t[3] == AuthRouteEntry { route: AuthRoute::Signup, method: Method::Get, handler: AuthHandler::SignupView });
    assert forall|h: AuthHandler| #[trigger] handler_served(h) by {
        match h {
            AuthHandler::LoginView => assert(t[0].handler == h),
            AuthHandler::LoginHandler => assert(t[1].handler == h),
            AuthHandler::LogoutHandler => assert(t[2].handler == h),
            AuthHandler::SignupView => assert(t[3].handler == h),
            AuthHandler::SignupHandler => assert(t[4].handler == h),
        }
    }
}

} // verus!
