//! The management API: who may call it, what failures are answered with, and
//! the requests that do more than pass on to the VMs.

pub mod auth;
pub mod error;
pub mod laws;
pub mod routes;
