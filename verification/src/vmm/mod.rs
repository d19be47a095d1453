//! The VM manager: VM records, their lifecycle and everything that acts on it.

pub mod activity;
pub mod auto_suspend;
pub mod create;
pub mod fc_api;
pub mod firecracker;
pub mod guest;
pub mod laws;
pub mod lifecycle;
pub mod rules;
pub mod schedule;
pub mod seeding;
pub mod setup;
pub mod state;
pub mod talk;
pub mod utils;
pub mod vm;
pub mod vsock;
pub mod workload;
