//! The remote API: its data, its requests and the policy by which a request
//! is retried.

pub mod client;
pub mod models;
