//! The handlers of the routes.

pub mod health;
pub mod v1;
