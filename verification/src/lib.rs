//! Verified core of a small server-side-rendered web platform: URL building,
//! route names, settings parsing, the login decision flow, session and
//! security-header settings, and form validation.

pub mod authn;
pub mod bootstrap;
pub mod dashboard;
pub mod environment;
pub mod forms;
pub mod http;
pub mod routing;
pub mod session;
pub mod templates;
pub mod text;
