use vstd::prelude::*;

use crate::authn::password::{bcrypt_verify_outcome, verify_password, PasswordError};
use crate::authn::routes::AuthRoute;
use crate::dashboard::routes::DashboardRoute;
use crate::routing::{
    build_url, lemma_single_param_query, pair_views, url_path, Prefix, QueryParams,
    SerializableAsUrl,
};
use crate::text::{lemma_without_char_absent, lemma_without_char_concat, without_char};

verus! {

/// A bcrypt hash of the word `password` at cost 10. When no user has the
/// given name the password is checked against it anyway, so that an unknown
/// name takes as long to answer as a wrong password.
pub const DUMMY_PASSWORD_HASH: &'static str = "$2y$10$tfFECZbEbCSq1.xBBK5nrOUWbpR2bQig/5T0/SjuEvpY5Diaonk9u";

/// The login page showing a message.
pub open spec fn login_page_with(message: Seq<char>) -> Seq<char> {
    "/auth/login?message="@ + message
}

/// The page a successful login leads to.
pub open spec fn greeting_page() -> Seq<char> {
    "/greet"@
}

/// The URL of the login page with a message.
pub fn login_page_url(message: &str) -> (url: String)
    ensures
        url@ == login_page_with(message@),
{
    let items = vec![("message".to_owned(), message.to_owned())];
    let ghost pairs = pair_views(items@);
    proof {
        assert(pairs =~= seq![("message"@, message@)]);
    }
    let url = build_url(Prefix::Nested("auth"), AuthRoute::Login, QueryParams::From(items));
    proof {
        reveal_strlit("auth");
        reveal_strlit("/login");
        reveal_strlit("message");
        reveal_strlit("/auth/login?message=");
        let login = seq!['l', 'o', 'g', 'i', 'n'];
        assert("/login"@ =~= seq!['/'] + login);
        lemma_without_char_concat(seq!['/'], login, '/');
        lemma_without_char_absent(login, '/');
        assert(without_char(seq!['/'], '/') =~= Seq::<char>::empty()) by {
            assert(seq!['/'].drop_last() =~= Seq::<char>::empty());
            reveal_with_fuel(without_char, 2);
        }
        assert(without_char("/login"@, '/') =~= login);
        lemma_without_char_absent("auth"@, '/');
        lemma_single_param_query("message"@, message@);
        assert(url_path(Prefix::Nested("auth"), AuthRoute::Login.url()) =~= seq!['/'] + "auth"@
            + seq!['/'] + login);
        assert(url@ =~= login_page_with(message@));
    }
    url
}

/// The URL of the page a successful login leads to.
pub fn greeting_page_url() -> (url: String)
    ensures
        url@ == greeting_page(),
{
    build_url(Prefix::Root, DashboardRoute::Greetings, QueryParams::Empty)
}

// ---------------------------------------------------------------------------
// The login flow
// ---------------------------------------------------------------------------

/// Where a login attempt stands.
#[derive(Debug, Clone, Copy, PartialEq, Eq, Structural)]
pub enum LoginState {
    /// Waiting for a database connection.
    AwaitingConnection,
    /// Waiting for the user to be looked up by name.
    AwaitingUser,
    /// Waiting for the password check; `user_found` tells whether it runs
    /// against the user's hash or the dummy hash.
    AwaitingVerification { user_found: bool },
    /// Waiting for the session to record the login.
    AwaitingLogin,
    /// The answer has been given.
    Done,
}

/// What the outside world reports back to the login flow.
#[derive(Debug)]
pub enum LoginEvent {
    /// Whether a database connection could be had.
    ConnectionAcquired { acquired: bool },
    /// The stored password hash of the user with the name, if there is one.
    UserLookedUp { password_hash: Option<String> },
    /// The outcome of the password check.
    PasswordChecked { outcome: Result<bool, PasswordError> },
    /// Whether the session recorded the login.
    LoginAttempted { succeeded: bool },
}

/// What the login flow asks the outside world to do next.
#[derive(Debug)]
pub enum LoginAction {
    /// Get a database connection.
    AcquireConnection,
    /// Look the user up by name.
    FindUser,
    /// Check the password against a hash (with `check_password`).
    VerifyPassword { hash: String },
    /// Record the login in the session.
    LogIn,
    /// Answer with a redirect.
    Redirect { location: String },
}

/// The model of a login event.
pub enum LoginEventView {
    ConnectionAcquired { acquired: bool },
    UserLookedUp { password_hash: Option<Seq<char>> },
    PasswordChecked { outcome: Option<bool> },
    LoginAttempted { succeeded: bool },
}

/// The model of a login action.
pub enum LoginActionView {
    AcquireConnection,
    FindUser,
    VerifyPassword { hash: Seq<char> },
    LogIn,
    Redirect { location: Seq<char> },
}

impl View for LoginEvent {
    type V = LoginEventView;

    open spec fn view(&self) -> LoginEventView {
        match self {
            LoginEvent::ConnectionAcquired { acquired } => LoginEventView::ConnectionAcquired {
                acquired: *acquired,
            },
            LoginEvent::UserLookedUp { password_hash } => LoginEventView::UserLookedUp {
                password_hash: match password_hash {
                    Some(h) => Some(h@),
                    None => None,
                },
            },
            LoginEvent::PasswordChecked { outcome } => LoginEventView::PasswordChecked {
                outcome: match outcome {
                    Ok(b) => Some(*b),
                    Err(_) => None,
                },
            },
            LoginEvent::LoginAttempted { succeeded } => LoginEventView::LoginAttempted {
                succeeded: *succeeded,
            },
        }
    }
}

impl View for LoginAction {
    type V = LoginActionView;

    open spec fn view(&self) -> LoginActionView {
        match self {
            LoginAction::AcquireConnection => LoginActionView::AcquireConnection,
            LoginAction::FindUser => LoginActionView::FindUser,
            LoginAction::VerifyPassword { hash } => LoginActionView::VerifyPassword { hash: hash@ },
            LoginAction::LogIn => LoginActionView::LogIn,
            LoginAction::Redirect { location } => LoginActionView::Redirect {
                location: location@,
            },
        }
    }
}

/// The event that a state waits for.
pub open spec fn event_expected(state: LoginState, event: LoginEventView) -> bool {
    match (state, event) {
        (LoginState::AwaitingConnection, LoginEventView::ConnectionAcquired { .. }) => true,
        (LoginState::AwaitingUser, LoginEventView::UserLookedUp { .. }) => true,
        (LoginState::AwaitingVerification { .. }, LoginEventView::PasswordChecked { .. }) => true,
        (LoginState::AwaitingLogin, LoginEventView::LoginAttempted { .. }) => true,
        _ => false,
    }
}

/// The answer to a failed login: the login page with the message `invalid`.
pub open spec fn invalid_login_answer() -> (LoginState, LoginActionView) {
    (LoginState::Done, LoginActionView::Redirect { location: login_page_with("invalid"@) })
}

/// The next state and action of the login flow.
///
/// - No connection: the login page with `db_error`.
/// - The user is looked up: the password is checked against the user's hash,
///   or against the dummy hash when there is no such user.
/// - No such user: whatever the check says, the login page with `invalid`.
/// - The check fails: the login page with `error`; the password does not
///   match: `invalid`; it matches: the login is recorded.
/// - The login is recorded: the greeting page; it is not: `invalid`.
pub open spec fn login_transition(state: LoginState, event: LoginEventView) -> (LoginState, LoginActionView) {
    match (state, event) {
        (LoginState::AwaitingConnection, LoginEventView::ConnectionAcquired { acquired }) => {
            if acquired {
                (LoginState::AwaitingUser, LoginActionView::FindUser)
            } else {
                (LoginState::Done, LoginActionView::Redirect { location: login_page_with("db_error"@) })
            }
        },
        (LoginState::AwaitingUser, LoginEventView::UserLookedUp { password_hash }) => {
            match password_hash {
                Some(hash) => (
                    LoginState::AwaitingVerification { user_found: true },
                    LoginActionView::VerifyPassword { hash },
                ),
                None => (
                    LoginState::AwaitingVerification { user_found: false },
                    LoginActionView::VerifyPassword { hash: DUMMY_PASSWORD_HASH@ },
                ),
            }
        },
        (LoginState::AwaitingVerification { user_found }, LoginEventView::PasswordChecked { outcome }) => {
            if !user_found {
                invalid_login_answer()
            } else {
                match outcome {
                    Some(true) => (LoginState::AwaitingLogin, LoginActionView::LogIn),
                    Some(false) => invalid_login_answer(),
                    None => (LoginState::Done, LoginActionView::Redirect { location: login_page_with("error"@) }),
                }
            }
        },
        (LoginState::AwaitingLogin, LoginEventView::LoginAttempted { succeeded }) => {
            if succeeded {
                (LoginState::Done, LoginActionView::Redirect { location: greeting_page() })
            } else {
                invalid_login_answer()
            }
        },
        _ => (state, LoginActionView::AcquireConnection),
    }
}

/// The first state and action of a login attempt.
pub fn login_start() -> (start: (LoginState, LoginAction))
    ensures
        start.0 == LoginState::AwaitingConnection,
        start.1@ == LoginActionView::AcquireConnection,
{
    (LoginState::AwaitingConnection, LoginAction::AcquireConnection)
}

/// One step of the login flow: the next state and the action to perform.
pub fn login_step(state: LoginState, event: LoginEvent) -> (next: (LoginState, LoginAction))
    requires
        event_expected(state, event@),
    ensures
        (next.0, next.1@) == login_transition(state, event@),
{
    match (state, event) {
        (LoginState::AwaitingConnection, LoginEvent::ConnectionAcquired { acquired }) => {
            if acquired {
                (LoginState::AwaitingUser, LoginAction::FindUser)
            } else {
                (LoginState::Done, LoginAction::Redirect { location: login_page_url("db_error") })
            }
        },
        (LoginState::AwaitingUser, LoginEvent::UserLookedUp { password_hash }) => {
            match password_hash {
                Some(hash) => (
                    LoginState::AwaitingVerification { user_found: true },
                    LoginAction::VerifyPassword { hash },
                ),
                None => (
                    LoginState::AwaitingVerification { user_found: false },
                    LoginAction::VerifyPassword { hash: DUMMY_PASSWORD_HASH.to_owned() },
                ),
            }
        },
        (LoginState::AwaitingVerification { user_found }, LoginEvent::PasswordChecked { outcome }) => {
            if !user_found {
                (LoginState::Done, LoginAction::Redirect { location: login_page_url("invalid") })
            } else {
                match outcome {
                    Ok(true) => (LoginState::AwaitingLogin, LoginAction::LogIn),
                    Ok(false) => (LoginState::Done, LoginAction::Redirect { location: login_page_url("invalid") }),
                    Err(_) => (LoginState::Done, LoginAction::Redirect { location: login_page_url("error") }),
                }
            }
        },
        (LoginState::AwaitingLogin, LoginEvent::LoginAttempted { succeeded }) => {
            if succeeded {
                (LoginState::Done, LoginAction::Redirect { location: greeting_page_url() })
            } else {
                (LoginState::Done, LoginAction::Redirect { location: login_page_url("invalid") })
            }
        },
        (state, _) => (state, LoginAction::AcquireConnection),
    }
}

/// Checks the typed password against a hash and reports the outcome as the
/// event the flow waits for.
pub fn check_password(password: &str, hash: &str) -> (event: LoginEvent)
    ensures
        event@ == (LoginEventView::PasswordChecked { outcome: bcrypt_verify_outcome(password@, hash@) }),
{
    LoginEvent::PasswordChecked { outcome: verify_password(password, hash) }
}

// ---------------------------------------------------------------------------
// Laws of the login flow
// ---------------------------------------------------------------------------

/// A login is recorded only right after the password of an existing user
/// was checked and matched.
pub proof fn law_login_only_after_matching_password(state: LoginState, event: LoginEventView)
    requires
        event_expected(state, event),
        login_transition(state, event).1 is LogIn,
    ensures
        state == (LoginState::AwaitingVerification { user_found: true }),
        event == (LoginEventView::PasswordChecked { outcome: Some(true) }),
{
}

/// An unknown name gets the same answer as a wrong password, whatever the
/// check against the dummy hash says; so does a login the session refused.
pub proof fn law_unknown_user_answered_like_wrong_password(outcome: Option<bool>)
    ensures
        login_transition(
            LoginState::AwaitingVerification { user_found: false },
            LoginEventView::PasswordChecked { outcome },
        ) == login_transition(
            LoginState::AwaitingVerification { user_found: true },
            LoginEventView::PasswordChecked { outcome: Some(false) },
        ),
        login_transition(
            LoginState::AwaitingLogin,
            LoginEventView::LoginAttempted { succeeded: false },
        ) == invalid_login_answer(),
{
}

/// Every lookup is followed by a password check, whether or not the user
/// exists, so both take the time of one bcrypt verification.
pub proof fn law_lookup_always_checks_a_password(password_hash: Option<Seq<char>>)
    ensures
        login_transition(
            LoginState::AwaitingUser,
            LoginEventView::UserLookedUp { password_hash },
        ).1 is VerifyPassword,
{
}

/// Each step moves the flow forward, and the flow ends with a redirect: from
/// any waiting state the expected event leads to a later state, and the
/// answer is given exactly when the flow is done.
pub proof fn law_login_flow_progresses(state: LoginState, event: LoginEventView)
    requires
        event_expected(state, event),
    ensures
        login_stage(login_transition(state, event).0) > login_stage(state),
        (login_transition(state, event).0 == LoginState::Done) == (login_transition(
            state,
            event,
        ).1 is Redirect),
{
}

/// How far a login attempt has come.
pub open spec fn login_stage(state: LoginState) -> int {
    match state {
        LoginState::AwaitingConnection => 0,
        LoginState::AwaitingUser => 1,
        LoginState::AwaitingVerification { .. } => 2,
        LoginState::AwaitingLogin => 3,
        LoginState::Done => 4,
    }
}

// ---------------------------------------------------------------------------
// Other answers
// ---------------------------------------------------------------------------

/// The query parameters of the login page.
#[derive(Debug)]
pub struct Params {
    /// The message to show; an empty parameter counts as absent.
    pub message: Option<String>,
}

/// The message the login page shows: the one given, or none.
pub fn login_view(params: Params) -> (message: String)
    ensures
        message@ == match params.message {
            Some(m) => m@,
            None => Seq::<char>::empty(),
        },
{
    match params.message {
        Some(m) => m,
        None => String::new(),
    }
}

/// Where a logout leads: the login page with the message `logged_out`.
pub fn logout_handler() -> (location: String)
    ensures
        location@ == login_page_with("logged_out"@),
{
    login_page_url("logged_out")
}

} // verus!
