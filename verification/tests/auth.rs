use platform_rs::authn::models::{error_user, Credentials, NewUser, User};
use platform_rs::authn::password::{hash_password, password_salt, verify_password, PasswordError};
use platform_rs::authn::repository::new_user_record;
use platform_rs::authn::routes::{routes, AuthHandler, Method};
use platform_rs::authn::views::auth::{
    check_password, login_page_url, login_start, login_step, login_view, logout_handler,
    LoginAction, LoginEvent, LoginState, Params, DUMMY_PASSWORD_HASH,
};
use platform_rs::authn::views::signup::signup_handler;
use platform_rs::authn::AuthRoute;

const SALT_SETTING: &str = "1234567890123456";

/// Runs the login flow the way the login handler does, with the stored
/// hash of the named user (if any) and whether the session accepts the login.
fn run_login(
    connection_ok: bool,
    credentials: &Credentials,
    stored_hash: Option<String>,
    session_accepts: bool,
) -> (String, bool) {
    let (mut state, mut action) = login_start();
    let mut logged_in = false;
    loop {
        let event = match action {
            LoginAction::AcquireConnection => LoginEvent::ConnectionAcquired { acquired: connection_ok },
            LoginAction::FindUser => LoginEvent::UserLookedUp { password_hash: stored_hash.clone() },
            LoginAction::VerifyPassword { hash } => check_password(&credentials.password, &hash),
            LoginAction::LogIn => {
                logged_in = session_accepts;
                LoginEvent::LoginAttempted { succeeded: session_accepts }
            }
            LoginAction::Redirect { location } => {
                assert_eq!(state, LoginState::Done);
                return (location, logged_in);
            }
        };
        let next = login_step(state, event);
        state = next.0;
        action = next.1;
    }
}

fn stored_user(name: &str, password: &str) -> User {
    let record = new_user_record(
        NewUser { name: name.into(), raw_password: password.into() },
        password_salt(SALT_SETTING),
    );
    User { id: 1, password_hash: record.password_hash, name: record.name, locale: record.locale }
}

#[test]
fn auth_test_login_handler_should_redirect_if_user_is_not_found() {
    let credentials = Credentials { username: "".into(), password: "".into() };
    let (location, logged_in) = run_login(true, &credentials, None, true);
    assert_eq!(location, "/auth/login?message=invalid");
    assert!(!logged_in);
}

#[test]
fn auth_test_login_handler_should_redirect_if_password_is_invalid() {
    let user = stored_user("user", "password");
    let credentials = Credentials { username: "user".into(), password: "wrong_password".into() };
    let (location, logged_in) = run_login(true, &credentials, Some(user.password_hash), true);
    assert_eq!(location, "/auth/login?message=invalid");
    assert!(!logged_in);
}

#[test]
fn auth_test_login_handler_should_redirect_if_credentials_are_valid() {
    let user = stored_user("valid_user", "password");
    let credentials = Credentials { username: "valid_user".into(), password: "password".into() };
    let (location, logged_in) = run_login(true, &credentials, Some(user.password_hash), true);
    assert_eq!(location, "/greet");
    assert!(logged_in);
}

#[test]
fn login_with_unreadable_stored_hash_reports_an_error() {
    let credentials = Credentials { username: "user".into(), password: "no_hash".into() };
    let (location, _) = run_login(true, &credentials, Some("no_hash".into()), true);
    assert_eq!(location, "/auth/login?message=error");
}

#[test]
fn login_without_database_connection() {
    let credentials = Credentials { username: "user".into(), password: "password".into() };
    let (location, _) = run_login(false, &credentials, None, true);
    assert_eq!(location, "/auth/login?message=db_error");
}

#[test]
fn login_refused_by_the_session_is_invalid() {
    let user = stored_user("valid_user", "password");
    let credentials = Credentials { username: "valid_user".into(), password: "password".into() };
    let (location, logged_in) = run_login(true, &credentials, Some(user.password_hash), false);
    assert_eq!(location, "/auth/login?message=invalid");
    assert!(!logged_in);
}

#[test]
fn unknown_user_is_checked_against_the_dummy_hash() {
    let (state, _) = login_start();
    let (state, _) = login_step(state, LoginEvent::ConnectionAcquired { acquired: true });
    let (state, action) = login_step(state, LoginEvent::UserLookedUp { password_hash: None });
    assert_eq!(state, LoginState::AwaitingVerification { user_found: false });
    match action {
        LoginAction::VerifyPassword { hash } => assert_eq!(hash, DUMMY_PASSWORD_HASH),
        other => panic!("expected a password check, got {:?}", other),
    }
    // even the right password for the dummy hash does not log anyone in
    let event = check_password("password", DUMMY_PASSWORD_HASH);
    let (state, action) = login_step(state, event);
    assert_eq!(state, LoginState::Done);
    match action {
        LoginAction::Redirect { location } => assert_eq!(location, "/auth/login?message=invalid"),
        other => panic!("expected a redirect, got {:?}", other),
    }
}

#[test]
fn the_dummy_hash_is_the_hash_of_password() {
    assert_eq!(verify_password("password", DUMMY_PASSWORD_HASH), Ok(true));
    assert_eq!(verify_password("other", DUMMY_PASSWORD_HASH), Ok(false));
}

#[test]
fn hashed_password_verifies_and_others_do_not() {
    let salt = password_salt(SALT_SETTING);
    let hash = hash_password("s3cret", salt);
    assert!(hash.starts_with("$2y$10$"));
    assert_eq!(hash.len(), 60);
    assert_eq!(verify_password("s3cret", &hash), Ok(true));
    assert_eq!(verify_password("S3cret", &hash), Ok(false));
    assert_eq!(verify_password("s3cret", "no_hash"), Err(PasswordError::Unverifiable));
}

#[test]
fn salt_is_the_setting_bytes() {
    assert_eq!(&password_salt(SALT_SETTING), SALT_SETTING.as_bytes());
}

#[test]
fn new_user_record_holds_name_hash_and_locale() {
    let salt = password_salt(SALT_SETTING);
    let record = new_user_record(NewUser { name: "ann".into(), raw_password: "pw".into() }, salt);
    assert_eq!(record.name, "ann");
    assert_eq!(record.locale, "en");
    assert_eq!(record.password_hash, hash_password("pw", salt));
}

#[test]
fn login_page_urls() {
    assert_eq!(login_page_url("invalid"), "/auth/login?message=invalid");
    assert_eq!(logout_handler(), "/auth/login?message=logged_out");
}

#[test]
fn login_view_message() {
    assert_eq!(login_view(Params { message: Some("invalid".into()) }), "invalid");
    assert_eq!(login_view(Params { message: None }), "");
}

#[test]
fn signup_redirects() {
    assert_eq!(signup_handler(true), "/login?message=success");
    assert_eq!(signup_handler(false), "/signup?message=error");
}

#[test]
fn error_user_fields() {
    let user = error_user();
    assert_eq!(user.id, -1);
    assert_eq!(user.password_hash, "");
    assert_eq!(user.name, "Unknown");
    assert_eq!(user.locale, "en");
}

#[test]
fn user_id_and_hash_bytes() {
    let user = User { id: 7, password_hash: "$2y$abc".into(), name: "n".into(), locale: "en".into() };
    assert_eq!(user.get_id(), 7);
    assert_eq!(user.get_password_hash(), b"$2y$abc".to_vec());
}

#[test]
fn account_routes_change_state_only_on_post() {
    let table = routes();
    assert_eq!(table.len(), 5);
    for entry in &table {
        let changes = !matches!(entry.handler, AuthHandler::LoginView | AuthHandler::SignupView);
        assert_eq!(changes, entry.method == Method::Post);
    }
    assert!(matches!(table[2].route, AuthRoute::Logout));
}
