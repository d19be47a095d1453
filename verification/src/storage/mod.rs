//! Per-VM block storage: optional volumes backed by chunk files.
//!
//! A volume maps byte ranges onto fixed-size chunk files, of which a missing
//! one reads as zeros. One worker process serves each volume as a block
//! device; a worker that dies is respawned, a bounded number of times.

pub mod cache;
pub mod laws;
pub mod manager;
pub mod rules;
pub mod volume;
pub mod worker;
