//! The reverse proxy to the exposed ports of VMs: HTTP, and PostgreSQL over
//! plain TCP.

pub mod http;
pub mod laws;
pub mod options;
pub mod target;
pub mod tcp;
pub mod token;
