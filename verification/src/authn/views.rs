//! The decisions behind the account pages.

pub mod auth;
pub mod signup;
