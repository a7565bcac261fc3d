//! The request and response shapes of the service's API.
pub mod models;
