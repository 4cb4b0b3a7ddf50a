//! Accounts: users, passwords, and the login, logout and sign-up decisions.

pub mod models;
pub mod password;
pub mod repository;
pub mod routes;
pub mod views;

pub use routes::AuthRoute;
