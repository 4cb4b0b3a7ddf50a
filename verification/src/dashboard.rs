//! The pages behind the login.

pub mod routes;
