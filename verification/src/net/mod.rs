//! Host networking: per-project bridges and address allocation that follows
//! the VM lifecycle.
//!
//! Each project gets one bridge carrying a subnet carved out of a supernet.
//! The host side of the bridge is the gateway (.1); each VM gets a TAP device
//! on the bridge and a guest address from .2 up. The bridge and subnet come
//! with a project's first VM and go with its last.

use vstd::prelude::*;

pub mod cidr;
pub mod effects;
pub mod host;
pub mod laws;
pub mod manager;
pub mod state;
pub mod types;

verus! {

/// Host interface names are limited to 15 bytes.
pub const IFNAMSIZ_MAX: usize = 15;

/// What the name of every project bridge begins with.
pub const BRIDGE_PREFIX: &'static str = "tbr-";

} // verus!
