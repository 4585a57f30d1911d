//! The read-only HTTP surface: errors and their bodies, the bind address
//! and the handlers of the routes.

pub mod config;
pub mod error;
pub mod routes;
