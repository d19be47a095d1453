//! The guest agent: runs processes on request of the host, and reports on them
//! and on whether the guest is idle.

pub mod agent;
pub mod laws;
pub mod monitor;
pub mod proto;
